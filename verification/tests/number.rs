use std::cmp::Ordering;

use tuxctl::number::{same_optional, Number};
use tuxctl::numerals::{
    checked_total, has_only_digits, is_digit, parse_all, parse_i64, parse_u32, parse_u64,
    to_decimal,
};
use tuxctl::order::chars_leq;
use tuxctl::table::{find, put};
use tuxctl::time::{saturating_since, saturating_times};

const VALUES: [f64; 12] = [
    0.0,
    -0.0,
    1.0,
    -1.0,
    99.5,
    100.0,
    250.0,
    f64::MIN_POSITIVE,
    f64::MAX,
    f64::INFINITY,
    f64::NEG_INFINITY,
    f64::NAN,
];

fn number(value: f64) -> Number {
    Number {
        bits: value.to_bits(),
    }
}

#[test]
fn numbers_compare_as_floats_do() {
    for left in VALUES {
        assert_eq!(number(left).is_finite(), left.is_finite(), "{left}");
        assert_eq!(number(left).is_below_zero(), left < 0.0, "{left}");
        for right in VALUES {
            assert_eq!(
                number(left).same(number(right)),
                left == right,
                "{left} {right}"
            );
            assert_eq!(
                number(left).ranks_up_to(number(right)),
                left.total_cmp(&right) != Ordering::Greater,
                "{left} {right}"
            );
        }
    }
    assert!(same_optional(None, None));
    assert!(!same_optional(None, Some(number(0.0))));
    assert!(same_optional(Some(number(-0.0)), Some(number(0.0))));
}

#[test]
fn percentages_are_clamped_as_floats_are() {
    for value in VALUES.into_iter().filter(|value| value.is_finite()) {
        assert_eq!(
            f64::from_bits(number(value).clamp_percent().bits),
            value.clamp(0.0, 100.0),
            "{value}"
        );
    }
}

#[test]
fn numerals_are_read_as_the_standard_library_reads_them() {
    for text in [
        "",
        "0",
        "7",
        "007",
        "+7",
        "-7",
        "+",
        "-",
        "7 ",
        "7a",
        "4294967295",
        "4294967296",
        "9223372036854775807",
        "9223372036854775808",
        "-9223372036854775808",
        "-9223372036854775809",
        "18446744073709551615",
        "18446744073709551616",
        "٣",
    ] {
        assert_eq!(parse_u32(text), text.parse().ok(), "{text:?}");
        assert_eq!(parse_u64(text), text.parse().ok(), "{text:?}");
        assert_eq!(parse_i64(text), text.parse().ok(), "{text:?}");
        assert_eq!(
            has_only_digits(text),
            text.chars().all(|c| c.is_ascii_digit()),
            "{text:?}"
        );
    }
    for number in [0, 9, 10, 1234567890, u64::MAX] {
        assert_eq!(to_decimal(number), number.to_string());
    }
    assert!(is_digit('9') && !is_digit('a'));
}

#[test]
fn totals_that_do_not_fit_are_left_out() {
    assert_eq!(checked_total(&vec![1, 2, 3]), Some(6));
    assert_eq!(checked_total(&vec![u64::MAX, 0]), Some(u64::MAX));
    assert_eq!(checked_total(&vec![u64::MAX, 1]), None);
    assert_eq!(checked_total(&Vec::new()), Some(0));
    let texts: Vec<String> = ["1", "2", "x"].map(str::to_owned).into();
    assert_eq!(parse_all(&texts, 0, 2), Some(vec![1, 2]));
    assert_eq!(parse_all(&texts, 1, 3), None);
    assert_eq!(parse_all(&texts, 3, 3), Some(Vec::new()));
}

#[test]
fn texts_are_ordered_as_the_standard_library_orders_them() {
    for left in ["", "a", "ab", "b", "B", "ä", "𐀀", "\u{ffff}"] {
        for right in ["", "a", "ab", "b", "B", "ä", "𐀀", "\u{ffff}"] {
            assert_eq!(
                chars_leq(&left.chars().collect(), &right.chars().collect()),
                left <= right,
                "{left:?} {right:?}"
            );
        }
    }
}

#[test]
fn tables_keep_one_value_for_each_number() {
    let mut entries: Vec<(u32, &str)> = Vec::new();
    put(&mut entries, 5, "five");
    put(&mut entries, 2, "two");
    put(&mut entries, 5, "again");

    assert_eq!(entries, [(2, "two"), (5, "again")]);
    assert_eq!(find(&entries, 2), 0);
    assert_eq!(find(&entries, 3), 1);
    assert_eq!(find(&entries, 9), 2);
}

#[test]
fn spans_do_not_run_over() {
    assert_eq!(saturating_since(5, 3), 2);
    assert_eq!(saturating_since(3, 5), 0);
    assert_eq!(saturating_times(7, 3), 21);
    assert_eq!(saturating_times(u64::MAX, 2), u64::MAX);
}
