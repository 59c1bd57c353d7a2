use chat_loop::decimal::{append_decimal, decimal};

#[test]
fn decimal_of_small_numbers() {
    assert_eq!(decimal(0), "0");
    assert_eq!(decimal(7), "7");
    assert_eq!(decimal(10), "10");
    assert_eq!(decimal(1_234_567_890), "1234567890");
}

#[test]
fn decimal_of_the_largest_number() {
    assert_eq!(decimal(u128::MAX), "340282366920938463463374607431768211455");
    assert_eq!(decimal(u128::MAX), u128::MAX.to_string());
}

#[test]
fn decimal_agrees_with_std_formatting() {
    let mut n: u128 = 1;
    for _ in 0..38 {
        assert_eq!(decimal(n), n.to_string());
        assert_eq!(decimal(n - 1), (n - 1).to_string());
        n *= 10;
    }
}

#[test]
fn append_decimal_keeps_what_was_there() {
    let mut text = String::from("n = ");
    append_decimal(&mut text, 4_096);
    assert_eq!(text, "n = 4096");
}
