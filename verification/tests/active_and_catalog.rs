use session_ledger::dates::{Date, DateTime};
use session_ledger::store::Database;

fn dt(year: u32, month: u32, day: u32, hour: u32, minute: u32) -> DateTime {
    DateTime { date: Date { year, month, day }, hour, minute, second: 0 }
}

fn open(db: &mut Database, cat: &str, inst: &str, start: DateTime) {
    db.open_session(cat.to_string(), inst.to_string(), 500, start).unwrap();
}

fn closed(db: &mut Database, cat: &str, inst: &str, start: DateTime, end: DateTime) {
    db.close_session(cat.to_string(), inst.to_string(), 500, Some(3600), 500, start, end)
        .unwrap();
}

#[test]
fn active_view_picks_latest_open_per_instance() {
    let mut db = Database::new();
    open(&mut db, "PC", "Seat1", dt(2024, 3, 1, 9, 0));
    open(&mut db, "PC", "Seat1", dt(2024, 3, 1, 12, 0));
    open(&mut db, "PC", "Seat2", dt(2024, 3, 1, 10, 0));
    let r = db.get_game_instances();
    assert_eq!(r.len(), 2);
    assert_eq!(r[0].instance_name, "Seat1");
    assert_eq!(r[0].start_time.hour, 12);
    assert_eq!(r[1].instance_name, "Seat2");
}

#[test]
fn active_view_ignores_closed_rows() {
    let mut db = Database::new();
    closed(&mut db, "PC", "Seat1", dt(2024, 3, 1, 9, 0), dt(2024, 3, 1, 10, 0));
    let r = db.get_game_instances();
    assert!(r.is_empty());
}

#[test]
fn active_view_groups_instances_across_categories() {
    // An instance name is a cross-category key: only the globally most
    // recent open row for "Seat1" is surfaced.
    let mut db = Database::new();
    open(&mut db, "PC", "Seat1", dt(2024, 3, 1, 9, 0));
    open(&mut db, "Console", "Seat1", dt(2024, 3, 1, 11, 0));
    let r = db.get_game_instances();
    assert_eq!(r.len(), 1);
    assert_eq!(r[0].category_name, "Console");
    assert_eq!(r[0].start_time.hour, 11);
}

#[test]
fn active_view_breaks_start_time_ties_by_latest_insert() {
    let mut db = Database::new();
    let first = db
        .open_session("PC".to_string(), "Seat1".to_string(), 500, dt(2024, 3, 1, 9, 0))
        .unwrap();
    let second = db
        .open_session("PC".to_string(), "Seat1".to_string(), 500, dt(2024, 3, 1, 9, 0))
        .unwrap();
    assert!(first < second);
    let r = db.get_game_instances();
    assert_eq!(r.len(), 1);
    assert_eq!(r[0].id, second);
}

#[test]
fn active_view_is_ordered() {
    let mut db = Database::new();
    open(&mut db, "PC", "Seat2", dt(2024, 3, 1, 9, 0));
    open(&mut db, "Console", "Pad1", dt(2024, 3, 1, 9, 30));
    open(&mut db, "PC", "Seat1", dt(2024, 3, 1, 10, 0));
    let r = db.get_game_instances();
    let pairs: Vec<(&str, &str)> =
        r.iter().map(|g| (g.category_name.as_str(), g.instance_name.as_str())).collect();
    assert_eq!(pairs, vec![("Console", "Pad1"), ("PC", "Seat1"), ("PC", "Seat2")]);
}

#[test]
fn catalogs_reflect_all_rows() {
    let mut db = Database::new();
    open(&mut db, "PC", "Seat1", dt(2024, 3, 1, 9, 0));
    closed(&mut db, "PC", "Seat2", dt(2024, 3, 1, 9, 0), dt(2024, 3, 1, 10, 0));
    closed(&mut db, "Console", "Seat1", dt(2024, 3, 1, 9, 0), dt(2024, 3, 1, 10, 0));
    let mut cats = db.get_distinct_categories();
    cats.sort();
    assert_eq!(cats, vec!["Console".to_string(), "PC".to_string()]);
    let mut insts = db.get_distinct_instances();
    insts.sort();
    assert_eq!(insts, vec!["Seat1".to_string(), "Seat2".to_string()]);
    let pairs = db.get_category_instance_combinations();
    assert_eq!(pairs.len(), 3);
}

#[test]
fn catalogs_forget_deleted_rows() {
    let mut db = Database::new();
    open(&mut db, "PC", "Seat1", dt(2024, 3, 1, 9, 0));
    closed(&mut db, "Console", "Pad1", dt(2024, 3, 1, 9, 0), dt(2024, 3, 1, 10, 0));
    db.delete_game_by_category_and_instance("Console", "Pad1").unwrap();
    let cats = db.get_distinct_categories();
    assert_eq!(cats, vec!["PC".to_string()]);
    let insts = db.get_distinct_instances();
    assert_eq!(insts, vec!["Seat1".to_string()]);
    let pairs = db.get_category_instance_combinations();
    assert_eq!(pairs.len(), 1);
    assert_eq!(pairs[0].category_name, "PC");
    assert_eq!(pairs[0].instance_name, "Seat1");
}

#[test]
fn catalogs_list_each_value_once() {
    let mut db = Database::new();
    open(&mut db, "PC", "Seat1", dt(2024, 3, 1, 9, 0));
    open(&mut db, "PC", "Seat1", dt(2024, 3, 1, 10, 0));
    closed(&mut db, "PC", "Seat1", dt(2024, 3, 1, 9, 0), dt(2024, 3, 1, 10, 0));
    assert_eq!(db.get_distinct_categories().len(), 1);
    assert_eq!(db.get_distinct_instances().len(), 1);
    assert_eq!(db.get_category_instance_combinations().len(), 1);
}
