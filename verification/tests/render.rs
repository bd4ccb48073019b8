use catr::render::{
    format_decimal, format_number_field, format_numbered_line, format_plain_line, FIELD_WIDTH,
};

#[test]
fn decimal_of_zero_is_a_single_zero() {
    assert_eq!(format_decimal(0), "0");
}

#[test]
fn decimal_has_no_leading_zeros() {
    assert_eq!(format_decimal(7), "7");
    assert_eq!(format_decimal(10), "10");
    assert_eq!(format_decimal(100), "100");
    assert_eq!(format_decimal(1_002_003), "1002003");
}

#[test]
fn decimal_of_the_largest_counter() {
    assert_eq!(format_decimal(u128::MAX), "340282366920938463463374607431768211455");
}

#[test]
fn decimal_past_sixty_four_bits() {
    assert_eq!(format_decimal(18_446_744_073_709_551_615), "18446744073709551615");
    assert_eq!(format_decimal(18_446_744_073_709_551_616), "18446744073709551616");
}

#[test]
fn decimal_agrees_with_the_standard_rendering() {
    let mut n: u128 = 0;
    while n < 2_000 {
        assert_eq!(format_decimal(n), format!("{}", n));
        n += 1;
    }
    let mut p: u128 = 1;
    let mut k = 0;
    while k < 38 {
        p *= 10;
        assert_eq!(format_decimal(p - 1), format!("{}", p - 1));
        assert_eq!(format_decimal(p), format!("{}", p));
        assert_eq!(format_decimal(p + 1), format!("{}", p + 1));
        k += 1;
    }
}

#[test]
fn field_width_is_six() {
    assert_eq!(FIELD_WIDTH, 6);
}

#[test]
fn short_numbers_are_padded_on_the_left_with_spaces() {
    assert_eq!(format_number_field(1), "     1");
    assert_eq!(format_number_field(42), "    42");
    assert_eq!(format_number_field(99_999), " 99999");
}

#[test]
fn six_digits_fill_the_field() {
    assert_eq!(format_number_field(100_000), "100000");
    assert_eq!(format_number_field(999_999), "999999");
}

#[test]
fn longer_numbers_grow_past_the_field() {
    assert_eq!(format_number_field(1_000_000), "1000000");
    assert_eq!(format_number_field(u128::MAX), "340282366920938463463374607431768211455");
}

#[test]
fn field_agrees_with_the_standard_rendering() {
    let samples: Vec<u128> = vec![
        0,
        1,
        9,
        10,
        99,
        100,
        999,
        1_000,
        9_999,
        10_000,
        99_999,
        100_000,
        999_999,
        1_000_000,
        123_456_789,
        u128::MAX,
    ];
    for n in samples {
        assert_eq!(format_number_field(n), format!("{:6}", n));
    }
}

#[test]
fn numbered_line_is_field_tab_text_newline() {
    assert_eq!(format_numbered_line(1, "hello"), "     1\thello\n");
    assert_eq!(format_numbered_line(1_234_567, "x"), "1234567\tx\n");
}

#[test]
fn numbered_line_keeps_an_empty_text() {
    assert_eq!(format_numbered_line(3, ""), "     3\t\n");
}

#[test]
fn numbered_line_keeps_the_text_unchanged() {
    let text = "  tabs\tand spaces  \u{e9}\u{4e16}\u{754c} ";
    assert_eq!(format_numbered_line(12, text), format!("{:6}\t{}\n", 12, text));
}

#[test]
fn plain_line_is_text_and_newline() {
    assert_eq!(format_plain_line("hello"), "hello\n");
    assert_eq!(format_plain_line(""), "\n");
    assert_eq!(format_plain_line("a\tb "), "a\tb \n");
}
