use calculator_program::arithmetic::calculate;

fn calc(val1: i32, val2: i32, operator: &str) -> Option<i32> {
    calculate(val1, val2, &String::from(operator))
}

#[test]
fn addition() {
    assert_eq!(calc(3, 4, "+"), Some(7));
    assert_eq!(calc(10, 3, "+"), Some(13));
    assert_eq!(calc(-10, 3, "+"), Some(-7));
    assert_eq!(calc(0, 0, "+"), Some(0));
}

#[test]
fn subtraction() {
    assert_eq!(calc(3, 4, "-"), Some(-1));
    assert_eq!(calc(-3, -4, "-"), Some(1));
    assert_eq!(calc(i32::MAX, i32::MAX, "-"), Some(0));
}

#[test]
fn multiplication() {
    assert_eq!(calc(13, 2, "*"), Some(26));
    assert_eq!(calc(-13, 2, "*"), Some(-26));
    assert_eq!(calc(-13, -2, "*"), Some(26));
    assert_eq!(calc(12345, 0, "*"), Some(0));
}

#[test]
fn division_truncates_toward_zero() {
    assert_eq!(calc(7, 2, "/"), Some(3));
    assert_eq!(calc(-7, 2, "/"), Some(-3));
    assert_eq!(calc(7, -2, "/"), Some(-3));
    assert_eq!(calc(-7, -2, "/"), Some(3));
    assert_eq!(calc(1, 2, "/"), Some(0));
    assert_eq!(calc(-1, 2, "/"), Some(0));
    assert_eq!(calc(0, 5, "/"), Some(0));
    assert_eq!(calc(i32::MAX, 1, "/"), Some(i32::MAX));
    assert_eq!(calc(i32::MIN, 1, "/"), Some(i32::MIN));
    assert_eq!(calc(i32::MAX, -1, "/"), Some(-i32::MAX));
    assert_eq!(calc(i32::MIN, 2, "/"), Some(-1_073_741_824));
    assert_eq!(calc(i32::MIN, i32::MIN, "/"), Some(1));
    assert_eq!(calc(i32::MAX, i32::MIN, "/"), Some(0));
}

#[test]
fn division_agrees_with_the_machine() {
    let values = [
        0,
        1,
        -1,
        2,
        -2,
        3,
        -3,
        7,
        -7,
        100,
        -100,
        65536,
        -65536,
        i32::MAX,
        i32::MIN,
        i32::MAX - 1,
        i32::MIN + 1,
    ];
    for &a in values.iter() {
        for &b in values.iter() {
            if b != 0 && !(a == i32::MIN && b == -1) {
                assert_eq!(calc(a, b, "/"), Some(a / b), "{} / {}", a, b);
            }
        }
    }
}

#[test]
fn division_by_zero_has_no_result() {
    for a in [0, 1, -1, 42, i32::MAX, i32::MIN] {
        assert_eq!(calc(a, 0, "/"), None);
    }
}

#[test]
fn unknown_operator_has_no_result() {
    for operator in [
        "%", "", " ", "+ ", " +", "++", "add", "x", "**", "//", "\u{f7}", "\u{2212}",
    ] {
        for (a, b) in [(1, 2), (0, 0), (i32::MAX, i32::MIN), (7, 0)] {
            assert_eq!(calc(a, b, operator), None, "{:?}", operator);
            assert_eq!(calc(a, b, operator), calc(a, 0, "/"));
        }
    }
}

#[test]
fn overflow_wraps_around() {
    assert_eq!(calc(i32::MAX, 1, "+"), Some(i32::MIN));
    assert_eq!(calc(i32::MIN, -1, "+"), Some(i32::MAX));
    assert_eq!(calc(i32::MAX, i32::MAX, "+"), Some(-2));
    assert_eq!(calc(i32::MIN, i32::MIN, "+"), Some(0));
    assert_eq!(calc(i32::MIN, 1, "-"), Some(i32::MAX));
    assert_eq!(calc(i32::MAX, -1, "-"), Some(i32::MIN));
    assert_eq!(calc(0, i32::MIN, "-"), Some(i32::MIN));
    assert_eq!(calc(65536, 65536, "*"), Some(0));
    assert_eq!(calc(i32::MAX, 2, "*"), Some(-2));
    assert_eq!(calc(i32::MIN, -1, "*"), Some(i32::MIN));
    assert_eq!(calc(i32::MIN, i32::MIN, "*"), Some(0));
    assert_eq!(calc(i32::MAX, i32::MAX, "*"), Some(1));
    assert_eq!(calc(i32::MIN, -1, "/"), Some(i32::MIN));
}

#[test]
fn arithmetic_agrees_with_wrapping_operations() {
    let mut x: i32 = 7;
    let mut y: i32 = -3;
    for _ in 0..3000 {
        x = x.wrapping_mul(1_103_515_245).wrapping_add(12345);
        y = y.wrapping_mul(214_013).wrapping_add(2_531_011);
        assert_eq!(calc(x, y, "+"), Some(x.wrapping_add(y)));
        assert_eq!(calc(x, y, "-"), Some(x.wrapping_sub(y)));
        assert_eq!(calc(x, y, "*"), Some(x.wrapping_mul(y)));
        if y != 0 {
            assert_eq!(calc(x, y, "/"), Some(x.wrapping_div(y)));
        }
    }
}
