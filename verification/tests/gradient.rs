//! Gradients: how they are written, and how their stops are moved about.

use mogen_studio::panels::gradient::{
    click_adds_stop, default_gradient, drag_stop, edited_gradient, grab_stop, largest_gap_ends,
    nearest_stop_within, pick_gradient_axis, pick_gradient_kind, remove_stop, remove_stop_at,
    serialize_gradient, sort_stops, stop_at_largest_gap, Gradient, GradientAxis, GradientKind,
    GradientStop,
};

fn stop(t: f32, rgb: [f32; 3]) -> GradientStop {
    GradientStop {
        t: t.to_bits(),
        place: format!("{}", t),
        red: format!("{}", rgb[0]),
        green: format!("{}", rgb[1]),
        blue: format!("{}", rgb[2]),
        on_grid: false,
    }
}

fn on_grid(i: usize, n: usize, t: u32) -> bool {
    n >= 2 && (f32::from_bits(t) - i as f32 / (n - 1) as f32).abs() < 1e-4
}

fn gradient(kind: GradientKind, stops: Vec<GradientStop>) -> Gradient {
    let n = stops.len();
    let mut stops = stops;
    for (i, s) in stops.iter_mut().enumerate() {
        s.on_grid = on_grid(i, n, s.t);
    }
    Gradient { kind, stops }
}

fn distances(stops: &[GradientStop], t: f32, strip_px: f32) -> Vec<u32> {
    stops
        .iter()
        .map(|s| ((f32::from_bits(s.t) - t).abs() * strip_px).to_bits())
        .collect()
}

fn gaps(stops: &[GradientStop]) -> Vec<u32> {
    stops
        .windows(2)
        .map(|w| (f32::from_bits(w[1].t) - f32::from_bits(w[0].t)).to_bits())
        .collect()
}

/// The middle of the widest gap.
fn middle(stops: Vec<GradientStop>) -> f32 {
    let gap = |a: u32, b: u32| (f32::from_bits(b) - f32::from_bits(a)).to_bits();
    match largest_gap_ends(stops, gap) {
        Some((a, b)) => (f32::from_bits(a) + f32::from_bits(b)) * 0.5,
        None => 0.5,
    }
}

#[test]
fn two_stops_axis_y_serialize_as_vertical() {
    let g = gradient(
        GradientKind::Linear { axis: GradientAxis::Y },
        vec![stop(0.0, [1.0, 0.0, 0.0]), stop(1.0, [0.0, 0.0, 1.0])],
    );
    let dsl = serialize_gradient(&g);
    assert_eq!(dsl, "vertical(from=[1, 0, 0], to=[0, 0, 1])");
}

#[test]
fn two_stops_axis_x_serialize_as_linear_with_axis() {
    let g = gradient(
        GradientKind::Linear { axis: GradientAxis::X },
        vec![stop(0.0, [1.0, 0.5, 0.0]), stop(1.0, [0.0, 0.5, 1.0])],
    );
    let dsl = serialize_gradient(&g);
    assert_eq!(dsl, "linear(from=[1, 0.5, 0], to=[0, 0.5, 1], axis=x)");
}

#[test]
fn two_stops_radial_serialize_as_radial() {
    let g = gradient(
        GradientKind::Radial,
        vec![stop(0.0, [1.0, 1.0, 0.0]), stop(1.0, [0.5, 0.0, 0.0])],
    );
    let dsl = serialize_gradient(&g);
    assert_eq!(dsl, "radial(center=[1, 1, 0], edge=[0.5, 0, 0])");
}

fn three_even() -> Vec<GradientStop> {
    vec![
        stop(0.0, [1.0, 0.0, 0.0]),
        stop(0.5, [0.0, 1.0, 0.0]),
        stop(1.0, [0.0, 0.0, 1.0]),
    ]
}

#[test]
fn three_stops_default_axis_serialize_as_stops_minimal() {
    let g = gradient(GradientKind::Linear { axis: GradientAxis::Y }, three_even());
    let dsl = serialize_gradient(&g);
    assert_eq!(dsl, "stops(colors=[[1, 0, 0], [0, 1, 0], [0, 0, 1]])");
}

#[test]
fn three_stops_non_y_axis_includes_axis_attr() {
    let g = gradient(GradientKind::Linear { axis: GradientAxis::Z }, three_even());
    let dsl = serialize_gradient(&g);
    assert!(dsl.contains("axis=z"), "axis= must be present: {dsl}");
    assert!(!dsl.contains("positions"), "evenly spaced — no positions=: {dsl}");
    assert!(!dsl.contains("kind="), "linear is default — no kind=: {dsl}");
}

#[test]
fn three_stops_radial_includes_kind_not_axis() {
    let g = gradient(GradientKind::Radial, three_even());
    let dsl = serialize_gradient(&g);
    assert!(dsl.contains("kind=radial"), "kind=radial required: {dsl}");
    assert!(!dsl.contains("axis="), "radial mustn't carry axis=: {dsl}");
}

#[test]
fn unevenly_spaced_stops_emit_positions_list() {
    let g = gradient(
        GradientKind::Linear { axis: GradientAxis::Y },
        vec![
            stop(0.0, [1.0, 0.0, 0.0]),
            stop(0.2, [0.5, 0.5, 0.0]),
            stop(1.0, [0.0, 0.0, 1.0]),
        ],
    );
    let dsl = serialize_gradient(&g);
    assert!(dsl.contains("positions=[0, 0.2, 1]"), "positions= present: {dsl}");
}

#[test]
fn two_stops_with_inner_positions_still_emit_stops_form() {
    let g = gradient(
        GradientKind::Linear { axis: GradientAxis::Y },
        vec![stop(0.25, [1.0, 0.0, 0.0]), stop(0.75, [0.0, 0.0, 1.0])],
    );
    let dsl = serialize_gradient(&g);
    assert!(dsl.starts_with("stops("), "off-edge 2-stop must use stops(): {dsl}");
    assert!(dsl.contains("positions=[0.25, 0.75]"));
}

#[test]
fn stop_at_largest_gap_targets_midpoint_of_biggest_gap() {
    let two = || vec![stop(0.0, [1.0, 0.0, 0.0]), stop(1.0, [0.0, 0.0, 1.0])];
    let t = middle(two());
    assert!((t - 0.5).abs() < 1e-5, "expected t≈0.5, got {}", t);
    // The gap that was picked has red at one end and blue at the other, so the
    // colour in its middle is half of each.
    let stops = two();
    let i = stop_at_largest_gap(&gaps(&stops)).unwrap();
    let half = |a: &str, b: &str| (a.parse::<f32>().unwrap() + b.parse::<f32>().unwrap()) * 0.5;
    assert!((half(&stops[i].red, &stops[i + 1].red) - 0.5).abs() < 1e-5);
    assert!((half(&stops[i].blue, &stops[i + 1].blue) - 0.5).abs() < 1e-5);
}

#[test]
fn stop_at_largest_gap_picks_wider_gap_with_three_stops() {
    let stops = vec![
        stop(0.0, [1.0, 0.0, 0.0]),
        stop(0.1, [0.9, 0.1, 0.0]),
        stop(1.0, [0.0, 0.0, 1.0]),
    ];
    let t = middle(stops);
    assert!((t - 0.55).abs() < 1e-5, "expected t≈0.55, got {}", t);
}

#[test]
fn nearest_stop_within_returns_none_outside_threshold() {
    let stops = vec![stop(0.0, [1.0, 0.0, 0.0]), stop(1.0, [0.0, 0.0, 1.0])];
    assert!(nearest_stop_within(&distances(&stops, 0.5, 200.0), 10.0f32.to_bits()).is_none());
}

#[test]
fn nearest_stop_within_returns_closest_within_threshold() {
    let stops = three_even();
    let idx = nearest_stop_within(&distances(&stops, 0.51, 200.0), 10.0f32.to_bits());
    assert_eq!(idx, Some(1));
}

#[test]
fn nearest_stop_within_breaks_tie_by_nearest() {
    let stops = vec![stop(0.4, [1.0, 0.0, 0.0]), stop(0.6, [0.0, 0.0, 1.0])];
    let d = distances(&stops, 0.5, 100.0);
    // Rounding puts the two distances next to each other; the first one wins a tie.
    let tie = vec![10.0f32.to_bits(), 10.0f32.to_bits()];
    assert_eq!(nearest_stop_within(&tie, 10.0f32.to_bits()), Some(0));
    let idx = nearest_stop_within(&d, 10.0f32.to_bits());
    assert_eq!(idx, Some(0));
}

#[test]
fn ends_are_recognised_within_a_ten_thousandth() {
    let form = |a: f32, b: f32| {
        serialize_gradient(&gradient(
            GradientKind::Radial,
            vec![stop(a, [1.0, 0.0, 0.0]), stop(b, [0.0, 0.0, 1.0])],
        ))
        .starts_with("radial(")
    };
    for (a, b) in [
        (0.0, 1.0),
        (-0.0, 1.0),
        (0.00009, 1.0),
        (-0.00009, 1.0),
        (0.0, 0.99991),
        (0.0, 1.00009),
        (0.0001, 1.0),
        (0.00011, 1.0),
        (0.0, 0.9999),
        (0.0, 0.99989),
        (0.0, 1.0001),
        (0.0, 1.00011),
        (0.5, 1.0),
        (0.0, 0.5),
    ] {
        let expected = f32::abs(a) < 1e-4 && f32::abs(b - 1.0) < 1e-4;
        assert_eq!(form(a, b), expected, "{a} {b}");
    }
    // The numbers right at the two limits.
    for bits in 0x3f80_0000u32 - 1700..0x3f80_0000 + 900 {
        let b = f32::from_bits(bits);
        assert_eq!(form(0.0, b), f32::abs(b - 1.0) < 1e-4, "{bits:x}");
    }
    for bits in 0x38d1_b700u32..0x38d1_b730 {
        let a = f32::from_bits(bits);
        assert_eq!(form(a, 1.0), f32::abs(a) < 1e-4, "{bits:x}");
        assert_eq!(form(-a, 1.0), f32::abs(a) < 1e-4, "-{bits:x}");
    }
}

#[test]
fn the_new_gradient_is_a_vertical_ramp_from_black_to_white() {
    assert_eq!(default_gradient(), "vertical(from=[0, 0, 0], to=[1, 1, 1])");
}

#[test]
fn sorting_is_stable() {
    let mut stops = vec![
        stop(0.5, [1.0, 0.0, 0.0]),
        stop(0.25, [0.0, 1.0, 0.0]),
        stop(0.5, [0.0, 0.0, 1.0]),
        stop(-1.0, [1.0, 1.0, 1.0]),
    ];
    sort_stops(&mut stops);
    let order: Vec<(f32, String)> =
        stops.iter().map(|s| (f32::from_bits(s.t), s.red.clone())).collect();
    assert_eq!(
        order,
        vec![
            (-1.0, "1".to_string()),
            (0.25, "0".to_string()),
            (0.5, "1".to_string()),
            (0.5, "0".to_string()),
        ]
    );
}

#[test]
fn an_edited_gradient_is_written_in_order() {
    let g = gradient(
        GradientKind::Linear { axis: GradientAxis::Y },
        vec![
            stop(1.0, [0.0, 0.0, 1.0]),
            stop(0.0, [1.0, 0.0, 0.0]),
            stop(0.5, [0.0, 1.0, 0.0]),
        ],
    );
    assert_eq!(
        edited_gradient(g, on_grid),
        "stops(colors=[[1, 0, 0], [0, 1, 0], [0, 0, 1]])"
    );
}

#[test]
fn a_drag_stops_at_the_neighbours_and_the_ends() {
    let stops = vec![
        stop(0.2, [1.0, 0.0, 0.0]),
        stop(0.5, [0.0, 1.0, 0.0]),
        stop(0.7, [0.0, 0.0, 1.0]),
    ];
    let to = |i: usize, raw: f32| f32::from_bits(drag_stop(&stops, i, raw.to_bits()));
    assert_eq!(to(1, 0.6), 0.6);
    assert_eq!(to(1, 0.1), 0.2);
    assert_eq!(to(1, 0.9), 0.7);
    assert_eq!(to(0, 0.0), 0.0);
    assert_eq!(to(0, -0.5), 0.0);
    assert_eq!(to(2, 1.0), 1.0);
    assert_eq!(to(2, 2.0), 1.0);
    assert_eq!(to(1, f32::INFINITY), 0.7);
    assert_eq!(to(1, f32::NEG_INFINITY), 0.2);
    assert_eq!(to(1, f32::NAN), 0.5);
    assert_eq!(to(1, -f32::NAN), 0.5);
}

#[test]
fn two_stops_always_stay() {
    let mut stops = three_even();
    assert!(remove_stop(&mut stops, 1));
    assert_eq!(stops.len(), 2);
    assert_eq!(stops[1].blue, "1");
    assert!(!remove_stop(&mut stops, 0));
    assert_eq!(stops.len(), 2);
}

#[test]
fn clicks_on_the_ramp() {
    let mut stops = three_even();
    let near = distances(&stops, 0.53, 200.0);
    assert_eq!(grab_stop(&near), Some(1));
    assert!(!click_adds_stop(&near));
    let far = distances(&stops, 0.25, 200.0);
    assert_eq!(grab_stop(&far), None);
    assert!(click_adds_stop(&far));
    // Fourteen pixels away: too far to grab, near enough to remove.
    let between = distances(&stops, 0.57, 200.0);
    assert_eq!(grab_stop(&between), None);
    assert!(remove_stop_at(&mut stops, &between));
    assert_eq!(stops.len(), 2);
    let d = distances(&stops, 0.0, 200.0);
    assert!(!remove_stop_at(&mut stops, &d));
}

#[test]
fn gaps_without_two_stops() {
    let px = |v: &[f32]| -> Vec<u32> { v.iter().map(|d| d.to_bits()).collect() };
    assert_eq!(grab_stop(&px(&[3.0, -0.0, 0.0, 20.0])), Some(1));
    assert_eq!(grab_stop(&px(&[f32::NAN, -f32::NAN, 10.5])), None);
    assert_eq!(nearest_stop_within(&px(&[1.0]), f32::NAN.to_bits()), None);
    assert_eq!(stop_at_largest_gap(&Vec::new()), None);
    assert_eq!(stop_at_largest_gap(&vec![3, 7, 7]), Some(1));
    let bits = |v: &[f32]| -> Vec<u32> { v.iter().map(|g| g.to_bits()).collect() };
    assert_eq!(stop_at_largest_gap(&bits(&[-0.0, 1.0])), Some(1));
    assert_eq!(stop_at_largest_gap(&bits(&[-0.0, 0.0])), Some(0));
    assert_eq!(stop_at_largest_gap(&bits(&[0.25, 0.5, 0.25, 0.5])), Some(1));
    assert_eq!(stop_at_largest_gap(&bits(&[f32::NAN, 0.5])), Some(1));
    assert_eq!(stop_at_largest_gap(&bits(&[f32::NAN, -f32::NAN])), None);
    assert_eq!(stop_at_largest_gap(&bits(&[-1.0, -2.0])), None);
    let at = |places: &[f32]| -> Vec<GradientStop> {
        places.iter().map(|t| stop(*t, [1.0, 0.0, 0.0])).collect()
    };
    assert_eq!(middle(at(&[0.0, -0.0, 1.0])), 0.5);
    assert_eq!(middle(at(&[1.0, 0.25, 0.0])), 0.625);
    assert_eq!(middle(at(&[0.75])), 0.5);
    assert_eq!(middle(at(&[0.5, 0.5])), 0.5);
}

#[test]
fn kind_and_axis() {
    let mut g = gradient(GradientKind::Linear { axis: GradientAxis::Z }, three_even());
    assert!(!pick_gradient_kind(&mut g, false));
    assert!(g.kind == GradientKind::Linear { axis: GradientAxis::Z });
    assert!(pick_gradient_kind(&mut g, true));
    assert!(g.kind == GradientKind::Radial);
    assert!(!pick_gradient_axis(&mut g, GradientAxis::X));
    assert!(g.kind == GradientKind::Radial);
    assert!(pick_gradient_kind(&mut g, false));
    assert!(g.kind == GradientKind::Linear { axis: GradientAxis::Y });
    assert!(!pick_gradient_axis(&mut g, GradientAxis::Y));
    assert!(pick_gradient_axis(&mut g, GradientAxis::X));
    assert!(g.kind == GradientKind::Linear { axis: GradientAxis::X });
}
