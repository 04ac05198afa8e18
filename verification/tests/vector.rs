use halign::point::Point;
use halign::vector::Vector;

fn eq001(x: f64, y: f64) -> bool {
    (x - y).abs() < 0.001
}

#[test]
fn vector_test_from_two_points() {
    let p1 = Point::new(1.0, 2.0);
    let p2 = Point::new(4.0, -2.0);
    let v = Vector::from_two_points(p1, p2);
    assert!(eq001(v.vx, 3.0));
    assert!(eq001(v.vy, -4.0));
    let w = Vector::from_two_points(p2, p1);
    assert!(eq001(w.vx, -3.0));
    assert!(eq001(w.vy, 4.0));
    let null = Vector::from_two_points(p1, p1);
    assert!(eq001(null.vx, 0.0));
    assert!(eq001(null.vy, 0.0));
}

#[test]
fn test_from_two_points_integers() {
    let p1: Point<i64> = Point::new(-3, 7);
    let p2: Point<i64> = Point::new(10, 5);
    let v = Vector::from_two_points(p1, p2);
    assert_eq!(v.vx, 13);
    assert_eq!(v.vy, -2);
}

#[test]
fn vector_test_new() {
    let v = Vector::new(1.0, -1.0);
    assert!(eq001(v.vx, 1.0));
    assert!(eq001(v.vy, -1.0));
}

#[test]
fn test_normal_vector() {
    // Tests left_normal_vector() and right_normal_vector()
    let v = Vector::new(0.0, 0.0);
    let w = v.left_normal_vector();
    assert!(eq001(w.vx, 0.0));
    assert!(eq001(w.vy, 0.0));
    let v = Vector::new(1.0, 0.0);
    let w = v.left_normal_vector();
    assert!(eq001(w.vx, 0.0));
    assert!(eq001(w.vy, 1.0));
    let w = v.right_normal_vector();
    assert!(eq001(w.vx, 0.0));
    assert!(eq001(w.vy, -1.0));
    let v = Vector::new(0.0, 1.0);
    let w = v.left_normal_vector();
    assert!(eq001(w.vx, -1.0));
    assert!(eq001(w.vy, 0.0));
    let w = v.right_normal_vector();
    assert!(eq001(w.vx, 1.0));
    assert!(eq001(w.vy, 0.0));
    let v = Vector::new(1.0, 1.0);
    let w = v.left_normal_vector();
    assert!(eq001(w.vx, -1.0));
    assert!(eq001(w.vy, 1.0));
    let w = v.right_normal_vector();
    assert!(eq001(w.vx, 1.0));
    assert!(eq001(w.vy, -1.0));
}

#[test]
fn test_normal_vectors_are_opposite() {
    let v: Vector<i32> = Vector::new(3, -4);
    let left = v.left_normal_vector();
    let right = v.right_normal_vector();
    assert_eq!((left.vx, left.vy), (4, 3));
    assert_eq!((right.vx, right.vy), (-4, -3));
    let back = left.right_normal_vector();
    assert_eq!((back.vx, back.vy), (3, -4));
}
