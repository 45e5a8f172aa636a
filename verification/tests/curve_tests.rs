use sunrise_brightness::curve::{BrightnessCurve, ControlPoint, MAX_POINTS, order_key};

fn bits(x: f64) -> u64 {
    x.to_bits()
}

fn coords(c: &BrightnessCurve) -> Vec<(f64, f64)> {
    c.points
        .iter()
        .map(|p| (f64::from_bits(p.position), f64::from_bits(p.brightness)))
        .collect()
}

#[test]
fn add_remove_points() {
    let mut curve = BrightnessCurve::linear();
    assert_eq!(curve.points.len(), 3);
    assert!(curve.add_point(bits(0.25), bits(60.0)));
    assert_eq!(curve.points.len(), 4);
    assert!(curve.preset.is_none());
    assert!(!curve.remove_point(0));
    assert!(curve.remove_point(1));
    assert_eq!(curve.points.len(), 3);
}

#[test]
fn presets_hold_their_points() {
    let natural = BrightnessCurve::natural();
    assert_eq!(
        coords(&natural),
        vec![(0.0, 0.0), (0.10, 50.0), (0.25, 80.0), (0.50, 100.0), (0.75, 80.0), (0.90, 50.0), (1.0, 0.0)]
    );
    assert_eq!(natural.preset.as_deref(), Some("natural"));
    let linear = BrightnessCurve::linear();
    assert_eq!(coords(&linear), vec![(0.0, 0.0), (0.5, 100.0), (1.0, 0.0)]);
    assert_eq!(linear.preset.as_deref(), Some("linear"));
    let owl = BrightnessCurve::night_owl();
    assert_eq!(
        coords(&owl),
        vec![(0.0, 5.0), (0.25, 30.0), (0.5, 50.0), (0.75, 35.0), (1.0, 5.0)]
    );
    assert_eq!(owl.preset.as_deref(), Some("night_owl"));
}

#[test]
fn from_preset_falls_back_to_natural() {
    assert_eq!(BrightnessCurve::from_preset("linear").preset.as_deref(), Some("linear"));
    assert_eq!(BrightnessCurve::from_preset("night_owl").preset.as_deref(), Some("night_owl"));
    assert_eq!(BrightnessCurve::from_preset("relax").preset.as_deref(), Some("natural"));
    assert_eq!(BrightnessCurve::from_preset("").points.len(), 7);
    assert_eq!(BrightnessCurve::default().preset.as_deref(), Some("natural"));
}

#[test]
fn add_point_places_point_in_order() {
    let mut curve = BrightnessCurve::natural();
    assert!(curve.add_point(bits(0.6), bits(90.0)));
    let c = coords(&curve);
    assert_eq!(c.len(), 8);
    assert_eq!(c[4], (0.6, 90.0));
    assert_eq!(c[3], (0.5, 100.0));
    assert_eq!(c[5], (0.75, 80.0));
}

#[test]
fn add_point_after_equal_positions() {
    let mut curve = BrightnessCurve::linear();
    assert!(curve.add_point(bits(0.5), bits(10.0)));
    let c = coords(&curve);
    assert_eq!(c, vec![(0.0, 0.0), (0.5, 100.0), (0.5, 10.0), (1.0, 0.0)]);
}

#[test]
fn add_point_refused_when_full() {
    let mut curve = BrightnessCurve::natural();
    for i in 0..3 {
        assert!(curve.add_point(bits(0.3 + 0.01 * i as f64), bits(40.0)));
    }
    assert_eq!(curve.points.len(), MAX_POINTS);
    let before = coords(&curve);
    curve.preset = Some("kept".to_string());
    assert!(!curve.add_point(bits(0.2), bits(1.0)));
    assert_eq!(coords(&curve), before);
    assert_eq!(curve.preset.as_deref(), Some("kept"));
}

#[test]
fn remove_point_keeps_ends() {
    let mut curve = BrightnessCurve::night_owl();
    assert!(!curve.remove_point(0));
    assert!(!curve.remove_point(4));
    assert!(!curve.remove_point(9));
    assert_eq!(curve.preset.as_deref(), Some("night_owl"));
    assert!(curve.remove_point(2));
    assert_eq!(coords(&curve), vec![(0.0, 5.0), (0.25, 30.0), (0.75, 35.0), (1.0, 5.0)]);
    assert!(curve.preset.is_none());
    let mut two = BrightnessCurve { points: vec![curve.points[0], curve.points[3]], preset: None };
    assert!(!two.remove_point(1));
    assert_eq!(two.points.len(), 2);
}

#[test]
fn sort_is_stable_and_orders_negatives() {
    let pts = [(0.5, 1.0), (-0.25, 2.0), (0.5, 3.0), (0.0, 4.0), (-0.0, 5.0), (-3.0, 6.0)];
    let mut curve = BrightnessCurve {
        points: pts
            .iter()
            .map(|&(p, b)| ControlPoint { position: bits(p), brightness: bits(b) })
            .collect(),
        preset: Some("x".to_string()),
    };
    curve.sort();
    let c = coords(&curve);
    let brightness: Vec<f64> = c.iter().map(|p| p.1).collect();
    assert_eq!(brightness, vec![6.0, 2.0, 4.0, 5.0, 1.0, 3.0]);
    assert_eq!(curve.preset.as_deref(), Some("x"));
    let again = coords(&curve);
    curve.sort();
    assert_eq!(coords(&curve), again);
}

#[test]
fn order_key_follows_numbers() {
    let xs = [-1e300, -2.0, -0.5, -1e-300, 0.0, 1e-300, 0.25, 1.0, 7.0, 1e300];
    for w in xs.windows(2) {
        assert!(order_key(bits(w[0])) < order_key(bits(w[1])));
    }
    assert_eq!(order_key(bits(-0.0)), order_key(bits(0.0)));
}

#[test]
fn presets_are_ordered_and_sized() {
    for name in ["natural", "linear", "night_owl", "other"] {
        let c = BrightnessCurve::from_preset(name);
        assert!(c.points.len() >= 2 && c.points.len() <= MAX_POINTS);
        for w in c.points.windows(2) {
            assert!(order_key(w[0].position) <= order_key(w[1].position));
        }
    }
}

#[test]
fn removing_an_added_point_restores_the_curve() {
    let mut curve = BrightnessCurve::natural();
    let before = coords(&curve);
    assert!(curve.add_point(bits(0.6), bits(90.0)));
    let index = curve
        .points
        .iter()
        .position(|p| p.position == bits(0.6))
        .unwrap();
    assert_eq!(index, 4);
    assert!(curve.remove_point(index));
    assert_eq!(coords(&curve), before);
}
