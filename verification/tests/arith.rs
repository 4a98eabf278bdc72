use simple_app::arith;

#[test]
fn five_plus_seven() {
    assert_eq!(arith::add(5, 7), 12);
}

#[test]
fn sum_within_range_is_exact() {
    assert_eq!(arith::add(0, 0), 0);
    assert_eq!(arith::add(-5, 5), 0);
    assert_eq!(arith::add(i32::MAX, 0), i32::MAX);
    assert_eq!(arith::add(i32::MIN, 0), i32::MIN);
    assert_eq!(arith::add(i32::MAX, i32::MIN), -1);
    assert_eq!(arith::add(1_000_000_000, 1_000_000_000), 2_000_000_000);
    assert_eq!(arith::add(30, 1), 31);
}

#[test]
fn sum_wraps_at_the_ends() {
    assert_eq!(arith::add(i32::MAX, 1), i32::MIN);
    assert_eq!(arith::add(i32::MIN, -1), i32::MAX);
    assert_eq!(arith::add(i32::MAX, i32::MAX), -2);
    assert_eq!(arith::add(i32::MIN, i32::MIN), 0);
    assert_eq!(arith::add(2_000_000_000, 2_000_000_000), -294_967_296);
}

#[test]
fn sum_is_commutative() {
    let values = [i32::MIN, -7, -1, 0, 1, 5, 7, 1 << 30, i32::MAX];
    for a in values {
        for b in values {
            assert_eq!(arith::add(a, b), arith::add(b, a));
        }
    }
}

#[test]
fn sum_is_associative() {
    let values = [i32::MIN, -7, -1, 0, 1, 5, 7, 1 << 30, i32::MAX];
    for a in values {
        for b in values {
            for c in values {
                assert_eq!(arith::add(arith::add(a, b), c), arith::add(a, arith::add(b, c)));
            }
        }
    }
}

#[test]
fn sum_of_three_small_numbers() {
    assert_eq!(arith::add(arith::add(1, 2), 3), 6);
    assert_eq!(arith::add(1, arith::add(2, 3)), 6);
}

#[test]
fn double_within_range_is_exact() {
    assert_eq!(arith::double(21), 42);
    assert_eq!(arith::double(0), 0);
    assert_eq!(arith::double(-21), -42);
    assert_eq!(arith::double(1_073_741_823), 2_147_483_646);
    assert_eq!(arith::double(-1_073_741_824), i32::MIN);
}

#[test]
fn double_wraps_at_the_ends() {
    assert_eq!(arith::double(1_073_741_824), i32::MIN);
    assert_eq!(arith::double(i32::MAX), -2);
    assert_eq!(arith::double(i32::MIN), 0);
    assert_eq!(arith::double(-1_073_741_825), i32::MAX - 1);
}
