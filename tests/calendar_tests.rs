use financetracker::calendar::{Date, YearMonth};

fn date(year: i32, month: u8, day: u8) -> Date {
    Date { year, month, day }
}

#[test]
fn december_window_rolls_over_to_next_year() {
    let ym = YearMonth::new(2026, 12).unwrap();
    let (start, end) = ym.window();
    assert_eq!(start, date(2026, 12, 1));
    assert_eq!(end, date(2027, 1, 1));
}

#[test]
fn mid_year_window_ends_at_next_month() {
    let (start, end) = YearMonth::new(2026, 1).unwrap().window();
    assert_eq!(start, date(2026, 1, 1));
    assert_eq!(end, date(2026, 2, 1));
}

#[test]
fn month_outside_range_is_rejected() {
    assert_eq!(YearMonth::new(2026, 13), None);
    assert_eq!(YearMonth::new(2026, 0), None);
    assert_eq!(YearMonth::new(2026, 7), Some(YearMonth { year: 2026, month: 7 }));
}

#[test]
fn window_is_half_open() {
    let (start, end) = YearMonth::new(2026, 1).unwrap().window();
    assert!(date(2026, 1, 1).is_within(&start, &end));
    assert!(date(2026, 1, 31).is_within(&start, &end));
    assert!(!date(2026, 2, 1).is_within(&start, &end));
    assert!(!date(2025, 12, 31).is_within(&start, &end));
}

#[test]
fn dates_order_by_year_then_month_then_day() {
    assert!(date(2025, 12, 31).is_before(&date(2026, 1, 1)));
    assert!(date(2026, 1, 5).is_before(&date(2026, 1, 20)));
    assert!(!date(2026, 1, 20).is_before(&date(2026, 1, 20)));
    assert!(!date(2026, 2, 1).is_before(&date(2026, 1, 31)));
    assert_eq!(YearMonth::containing(&date(2026, 3, 17)), YearMonth { year: 2026, month: 3 });
}

#[test]
fn months_order_by_year_then_month() {
    let nov = YearMonth::new(2026, 11).unwrap();
    let dec = YearMonth::new(2026, 12).unwrap();
    let jan = YearMonth::new(2027, 1).unwrap();
    assert!(nov.is_before(&dec));
    assert!(dec.is_before(&jan));
    assert!(!jan.is_before(&dec));
    assert!(!dec.is_before(&dec));
}
