use halign::point::Point;

fn eq(x: f64, y: f64) -> bool {
    (x - y).abs() < 1e-8
}

#[test]
fn point_test_new() {
    let p = Point::new(3.0, -1.5);
    assert_eq!(true, p.x - 3.0 < 0.001);
    assert_eq!(true, p.y - (-1.5) < 0.001);
}

#[test]
fn test_traslate_axis() {
    let p = Point::new(1.0, 0.0);
    let pprim = p.traslate_axis(10.0, -10.0);
    assert_eq!(true, eq(pprim.x, 11.0_f64));
    assert_eq!(true, eq(pprim.y, -10.0_f64));
}

#[test]
fn test_traslate_axis_integers() {
    let p: Point<i64> = Point::new(-5, 8);
    let q = p.traslate_axis(5, -10);
    assert_eq!(q.x, 0);
    assert_eq!(q.y, -2);
    assert_eq!(p.x, -5);
    assert_eq!(p.y, 8);
}

#[test]
fn test_tangent_to_the_east() {
    // A tangent of length 100 that starts at the origin with the azimuth 90,
    // which is the angle 0, ends 100 to the east.
    let azimuth = 90.0_f64;
    let angle = (90.0 - azimuth).to_radians();
    let start = Point::new(0.0, 0.0);
    let end = start.traslate_axis(100.0 * angle.cos(), 100.0 * angle.sin());
    assert!(eq(end.x, 100.0));
    assert!(eq(end.y, 0.0));
}
