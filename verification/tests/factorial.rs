use halign::factorial;

#[test]
fn test_factorial() {
    let n = 0;
    assert_eq!(true, factorial(n) == 1);
    let n = 1;
    assert_eq!(true, factorial(n) == 1);
    let n = 5;
    assert_eq!(true, factorial(n) == 120);
    let x = factorial(5) as f64;
    println!("{}", x * 2.0);
}

#[test]
fn test_factorial_small_values() {
    assert_eq!(factorial(2), 2);
    assert_eq!(factorial(3), 6);
    assert_eq!(factorial(4), 24);
    assert_eq!(factorial(10), 3628800);
    assert_eq!(factorial(12), 479001600);
    assert_eq!(factorial(13), 6227020800);
}

#[test]
fn test_factorial_largest() {
    assert_eq!(factorial(20), 2432902008176640000);
    assert_eq!(factorial(20) / factorial(19), 20);
}
