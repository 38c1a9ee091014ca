use session_ledger::dates::{Date, day_number_exec, days_in_month_exec, weekday_exec};
use session_ledger::order::{str_cmp, str_eq};

#[test]
fn day_numbers_are_consecutive_across_boundaries() {
    let feb28 = Date { year: 2024, month: 2, day: 28 };
    let feb29 = Date { year: 2024, month: 2, day: 29 };
    let mar1 = Date { year: 2024, month: 3, day: 1 };
    let n28 = day_number_exec(&feb28);
    assert_eq!(day_number_exec(&feb29), n28 + 1);
    assert_eq!(day_number_exec(&mar1), n28 + 2);
    let dec31 = Date { year: 2023, month: 12, day: 31 };
    let jan1 = Date { year: 2024, month: 1, day: 1 };
    assert_eq!(day_number_exec(&jan1), day_number_exec(&dec31) + 1);
}

#[test]
fn weekday_matches_known_dates() {
    // 2024-03-01 was a Friday, 2024-03-03 a Sunday; Sunday is 0.
    assert_eq!(weekday_exec(&Date { year: 2024, month: 3, day: 1 }), 5);
    assert_eq!(weekday_exec(&Date { year: 2024, month: 3, day: 3 }), 0);
    // 1970-01-01 was a Thursday.
    assert_eq!(weekday_exec(&Date { year: 1970, month: 1, day: 1 }), 4);
}

#[test]
fn month_lengths_respect_leap_years() {
    assert_eq!(days_in_month_exec(2024, 2), 29);
    assert_eq!(days_in_month_exec(2023, 2), 28);
    assert_eq!(days_in_month_exec(1900, 2), 28);
    assert_eq!(days_in_month_exec(2000, 2), 29);
    assert_eq!(days_in_month_exec(2024, 4), 30);
    assert_eq!(days_in_month_exec(2024, 12), 31);
}

#[test]
fn string_comparison_is_bytewise() {
    assert_eq!(str_cmp("Console", "PC"), 0);
    assert_eq!(str_cmp("PC", "PC"), 1);
    assert_eq!(str_cmp("Seat2", "Seat1"), 2);
    assert_eq!(str_cmp("Seat", "Seat1"), 0);
    // Upper-case letters order before lower-case ones in byte order.
    assert_eq!(str_cmp("Z", "a"), 0);
}

#[test]
fn string_equality_is_exact() {
    assert!(str_eq("Seat1", "Seat1"));
    assert!(!str_eq("Seat1", "Seat2"));
    assert!(!str_eq("Seat", "Seat1"));
    assert!(str_eq("", ""));
}
