use session_ledger::dates::{Date, DateTime};
use session_ledger::store::Database;

fn dt(year: u32, month: u32, day: u32, hour: u32, minute: u32) -> DateTime {
    DateTime { date: Date { year, month, day }, hour, minute, second: 0 }
}

fn d(year: u32, month: u32, day: u32) -> Date {
    Date { year, month, day }
}

fn closed(db: &mut Database, cat: &str, inst: &str, cost: u64, start: DateTime, end: DateTime) {
    db.close_session(cat.to_string(), inst.to_string(), 500, Some(3600), cost, start, end)
        .unwrap();
}

fn open(db: &mut Database, cat: &str, inst: &str, start: DateTime) {
    db.open_session(cat.to_string(), inst.to_string(), 500, start).unwrap();
}

#[test]
fn daily_report_excludes_open_rows() {
    let mut db = Database::new();
    open(&mut db, "PC", "Seat1", dt(2024, 3, 1, 10, 0));
    closed(&mut db, "PC", "Seat2", 500, dt(2024, 3, 1, 10, 0), dt(2024, 3, 1, 11, 0));
    let r = db.fetch_daily_data(&d(2024, 3, 1), None, None);
    assert_eq!(r.len(), 1);
    assert!(r.iter().all(|g| g.total_cost > 0));
    assert_eq!(r[0].instance_name, "Seat2");
}

#[test]
fn daily_report_window_boundaries() {
    let mut db = Database::new();
    closed(&mut db, "PC", "Today", 500, dt(2024, 3, 1, 23, 59), dt(2024, 3, 2, 0, 30));
    closed(&mut db, "PC", "Tomorrow", 500, dt(2024, 3, 2, 0, 0), dt(2024, 3, 2, 1, 0));
    let r = db.fetch_daily_data(&d(2024, 3, 1), None, None);
    assert_eq!(r.len(), 1);
    assert_eq!(r[0].instance_name, "Today");
}

#[test]
fn weekly_report_eight_day_window() {
    // 2024-03-01 is a Friday; its week window runs from Sunday 2024-02-25
    // through Sunday 2024-03-03, both inclusive.
    let mut db = Database::new();
    closed(&mut db, "PC", "BeforeWindow", 500, dt(2024, 2, 24, 9, 0), dt(2024, 2, 24, 10, 0));
    closed(&mut db, "PC", "FirstDay", 500, dt(2024, 2, 25, 9, 0), dt(2024, 2, 25, 10, 0));
    closed(&mut db, "PC", "LastDay", 500, dt(2024, 3, 3, 9, 0), dt(2024, 3, 3, 10, 0));
    closed(&mut db, "PC", "AfterWindow", 500, dt(2024, 3, 4, 9, 0), dt(2024, 3, 4, 10, 0));
    let r = db.fetch_weekly_data(&d(2024, 3, 1), None, None);
    let names: Vec<&str> = r.iter().map(|g| g.instance_name.as_str()).collect();
    assert_eq!(names, vec!["FirstDay", "LastDay"]);
}

#[test]
fn monthly_report_matches_calendar_month() {
    let mut db = Database::new();
    closed(&mut db, "PC", "InMonth", 500, dt(2024, 3, 31, 9, 0), dt(2024, 3, 31, 10, 0));
    closed(&mut db, "PC", "NextMonth", 500, dt(2024, 4, 1, 9, 0), dt(2024, 4, 1, 10, 0));
    closed(&mut db, "PC", "LastYear", 500, dt(2023, 3, 15, 9, 0), dt(2023, 3, 15, 10, 0));
    let r = db.fetch_monthly_data(&d(2024, 3, 1), None, None);
    assert_eq!(r.len(), 1);
    assert_eq!(r[0].instance_name, "InMonth");
}

#[test]
fn yearly_report_matches_calendar_year() {
    let mut db = Database::new();
    closed(&mut db, "PC", "January", 500, dt(2024, 1, 1, 9, 0), dt(2024, 1, 1, 10, 0));
    closed(&mut db, "PC", "December", 500, dt(2024, 12, 31, 9, 0), dt(2024, 12, 31, 10, 0));
    closed(&mut db, "PC", "Earlier", 500, dt(2023, 12, 31, 9, 0), dt(2023, 12, 31, 10, 0));
    let r = db.fetch_yearly_data(&d(2024, 6, 15), None, None);
    assert_eq!(r.len(), 2);
}

#[test]
fn custom_range_is_inclusive() {
    let mut db = Database::new();
    closed(&mut db, "PC", "AtStart", 500, dt(2024, 3, 10, 9, 0), dt(2024, 3, 10, 10, 0));
    closed(&mut db, "PC", "AtEnd", 500, dt(2024, 3, 20, 9, 0), dt(2024, 3, 20, 10, 0));
    closed(&mut db, "PC", "Outside", 500, dt(2024, 3, 21, 9, 0), dt(2024, 3, 21, 10, 0));
    let r = db.fetch_custom_data(None, None, &d(2024, 3, 10), &d(2024, 3, 20));
    assert_eq!(r.len(), 2);
}

#[test]
fn inverted_custom_range_is_empty() {
    let mut db = Database::new();
    closed(&mut db, "PC", "Seat1", 500, dt(2024, 3, 15, 9, 0), dt(2024, 3, 15, 10, 0));
    let r = db.fetch_custom_data(None, None, &d(2024, 3, 20), &d(2024, 3, 10));
    assert!(r.is_empty());
}

#[test]
fn absent_category_filter_is_superset_of_each_category() {
    let mut db = Database::new();
    closed(&mut db, "PC", "Seat1", 500, dt(2024, 3, 1, 9, 0), dt(2024, 3, 1, 10, 0));
    closed(&mut db, "Console", "Pad1", 700, dt(2024, 3, 1, 9, 0), dt(2024, 3, 1, 10, 0));
    let all = db.fetch_daily_data(&d(2024, 3, 1), None, None);
    let pc_only = db.fetch_daily_data(&d(2024, 3, 1), Some("PC"), None);
    assert!(pc_only.len() <= all.len());
    for g in &pc_only {
        assert!(all.iter().any(|h| h.id == g.id));
    }
    assert_eq!(pc_only.len(), 1);
    assert_eq!(all.len(), 2);
}

#[test]
fn filters_apply_to_category_and_instance() {
    let mut db = Database::new();
    closed(&mut db, "PC", "Seat1", 500, dt(2024, 3, 1, 9, 0), dt(2024, 3, 1, 10, 0));
    closed(&mut db, "PC", "Seat2", 500, dt(2024, 3, 1, 9, 0), dt(2024, 3, 1, 10, 0));
    closed(&mut db, "Console", "Seat1", 700, dt(2024, 3, 1, 9, 0), dt(2024, 3, 1, 10, 0));
    let r = db.fetch_daily_data(&d(2024, 3, 1), Some("PC"), Some("Seat1"));
    assert_eq!(r.len(), 1);
    assert_eq!(r[0].category_name, "PC");
    assert_eq!(r[0].instance_name, "Seat1");
}

#[test]
fn report_rows_are_ordered_by_category_then_instance() {
    let mut db = Database::new();
    closed(&mut db, "PC", "Seat2", 500, dt(2024, 3, 1, 9, 0), dt(2024, 3, 1, 10, 0));
    closed(&mut db, "Console", "Pad1", 700, dt(2024, 3, 1, 9, 0), dt(2024, 3, 1, 10, 0));
    closed(&mut db, "PC", "Seat1", 500, dt(2024, 3, 1, 9, 0), dt(2024, 3, 1, 10, 0));
    let r = db.fetch_daily_data(&d(2024, 3, 1), None, None);
    let pairs: Vec<(&str, &str)> =
        r.iter().map(|g| (g.category_name.as_str(), g.instance_name.as_str())).collect();
    assert_eq!(pairs, vec![("Console", "Pad1"), ("PC", "Seat1"), ("PC", "Seat2")]);
}

#[test]
fn monthly_average_population_uses_explicit_month() {
    let mut db = Database::new();
    closed(&mut db, "PC", "Seat1", 500, dt(2024, 3, 1, 9, 0), dt(2024, 3, 1, 10, 0));
    closed(&mut db, "PC", "Seat2", 700, dt(2024, 4, 1, 9, 0), dt(2024, 4, 1, 10, 0));
    open(&mut db, "PC", "Seat3", dt(2024, 3, 2, 9, 0));
    let r = db.fetch_monthly_average(None, None, 2024, 3);
    assert_eq!(r.len(), 1);
    assert_eq!(r[0].instance_name, "Seat1");
}

#[test]
fn yearly_average_population_uses_explicit_year() {
    let mut db = Database::new();
    closed(&mut db, "PC", "Seat1", 500, dt(2023, 3, 1, 9, 0), dt(2023, 3, 1, 10, 0));
    closed(&mut db, "PC", "Seat2", 700, dt(2024, 4, 1, 9, 0), dt(2024, 4, 1, 10, 0));
    let r = db.fetch_yearly_average(None, None, 2023);
    assert_eq!(r.len(), 1);
    assert_eq!(r[0].instance_name, "Seat1");
}

#[test]
fn scenario_open_and_closed_rows_for_one_seat() {
    // An open row and a closed row for the same seat and start time: the
    // active view returns the open row; the daily report only the closed.
    let mut db = Database::new();
    open(&mut db, "PC", "Seat1", dt(2024, 3, 1, 10, 0));
    closed(&mut db, "PC", "Seat1", 500, dt(2024, 3, 1, 10, 0), dt(2024, 3, 1, 11, 0));
    let active = db.get_game_instances();
    assert_eq!(active.len(), 1);
    assert_eq!(active[0].total_cost, 0);
    assert!(active[0].end_time.is_none());
    let daily = db.fetch_daily_data(&d(2024, 3, 1), None, None);
    assert_eq!(daily.len(), 1);
    assert!(daily[0].total_cost > 0);
    assert!(daily[0].end_time.is_some());
}
