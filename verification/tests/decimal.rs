use simple_app::decimal::{append_decimal, append_signed_decimal};

#[test]
fn decimal_of_zero() {
    let mut out = String::new();
    append_decimal(&mut out, 0);
    assert_eq!(out, "0");
}

#[test]
fn decimal_is_appended() {
    let mut out = String::from("n = ");
    append_decimal(&mut out, 1203);
    assert_eq!(out, "n = 1203");
    append_decimal(&mut out, 4);
    assert_eq!(out, "n = 12034");
}

#[test]
fn decimal_has_no_leading_zero() {
    for n in [1u32, 10, 100, 1000, 10_000, 100_000, 1_000_000_000] {
        let mut out = String::new();
        append_decimal(&mut out, n);
        assert!(out.starts_with('1'));
        assert_eq!(out, n.to_string());
    }
}

#[test]
fn decimal_of_the_largest_number() {
    let mut out = String::new();
    append_decimal(&mut out, u32::MAX);
    assert_eq!(out, "4294967295");
}

#[test]
fn signed_decimal_of_negative_numbers() {
    let mut out = String::new();
    append_signed_decimal(&mut out, -1);
    assert_eq!(out, "-1");
    let mut out = String::new();
    append_signed_decimal(&mut out, i32::MIN);
    assert_eq!(out, "-2147483648");
}

#[test]
fn signed_decimal_of_numbers_from_zero_up() {
    let mut out = String::new();
    append_signed_decimal(&mut out, 0);
    assert_eq!(out, "0");
    let mut out = String::from("<");
    append_signed_decimal(&mut out, i32::MAX);
    assert_eq!(out, "<2147483647");
}

#[test]
fn signed_decimal_agrees_with_std_formatting() {
    let mut n: i32 = i32::MIN;
    loop {
        let mut out = String::new();
        append_signed_decimal(&mut out, n);
        assert_eq!(out, n.to_string());
        match n.checked_add(9_999_991) {
            Some(next) => n = next,
            None => break,
        }
    }
}
