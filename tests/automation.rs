use wvr::automation::{AutomationCurve, CurveError, Domain, Interpolation, Keyframe};

fn kf(at: u64, value: i64) -> Keyframe {
    Keyframe { at, value }
}

fn curve(interpolation: Interpolation, keys: Vec<Keyframe>) -> AutomationCurve {
    AutomationCurve::new(Domain::Beat, interpolation, keys).unwrap()
}

#[test]
fn keyframes_are_hit_exactly_and_ends_clamp() {
    for interpolation in [Interpolation::Linear, Interpolation::Step] {
        let c = curve(interpolation, vec![kf(1000, 10), kf(2000, -40), kf(5000, 70)]);
        assert_eq!(c.evaluate(1000), 10);
        assert_eq!(c.evaluate(2000), -40);
        assert_eq!(c.evaluate(5000), 70);
        assert_eq!(c.evaluate(0), 10);
        assert_eq!(c.evaluate(999), 10);
        assert_eq!(c.evaluate(5001), 70);
        assert_eq!(c.evaluate(u64::MAX), 70);
    }
}

#[test]
fn linear_interpolation_rounds_down_between_keyframes() {
    let rising = curve(Interpolation::Linear, vec![kf(0, 0), kf(1000, 100)]);
    assert_eq!(rising.evaluate(500), 50);
    let falling = curve(Interpolation::Linear, vec![kf(0, 100), kf(1000, 0)]);
    assert_eq!(falling.evaluate(250), 75);
    let thirds = curve(Interpolation::Linear, vec![kf(0, 0), kf(3, 10)]);
    assert_eq!(thirds.evaluate(1), 3);
    assert_eq!(thirds.evaluate(2), 6);
    let wide = curve(Interpolation::Linear, vec![kf(0, i64::MIN), kf(2, i64::MAX)]);
    assert_eq!(wide.evaluate(1), -1);
}

#[test]
fn step_interpolation_holds_the_earlier_value() {
    let c = curve(Interpolation::Step, vec![kf(0, 1), kf(100, 2), kf(200, 3)]);
    assert_eq!(c.evaluate(99), 1);
    assert_eq!(c.evaluate(150), 2);
    assert_eq!(c.evaluate(199), 2);
}

#[test]
fn single_keyframe_is_constant() {
    let c = curve(Interpolation::Linear, vec![kf(500, 9)]);
    assert_eq!(c.evaluate(0), 9);
    assert_eq!(c.evaluate(500), 9);
    assert_eq!(c.evaluate(10_000), 9);
}

#[test]
fn curves_without_keyframes_or_order_are_refused() {
    assert_eq!(
        AutomationCurve::new(Domain::Time, Interpolation::Linear, vec![]).unwrap_err(),
        CurveError::Empty
    );
    assert_eq!(
        AutomationCurve::new(Domain::Time, Interpolation::Linear, vec![kf(5, 1), kf(5, 2)]).unwrap_err(),
        CurveError::Unordered
    );
    assert_eq!(
        AutomationCurve::new(Domain::Time, Interpolation::Step, vec![kf(1, 1), kf(9, 2), kf(4, 3)]).unwrap_err(),
        CurveError::Unordered
    );
    let c = AutomationCurve::new(Domain::Time, Interpolation::Step, vec![kf(1, 1), kf(9, 2)]).unwrap();
    assert!(c.is_valid());
}
