use session_ledger::dates::{Date, DateTime};
use session_ledger::records::StoreError;
use session_ledger::store::Database;

fn dt(year: u32, month: u32, day: u32, hour: u32, minute: u32) -> DateTime {
    DateTime { date: Date { year, month, day }, hour, minute, second: 0 }
}

#[test]
fn open_session_creates_open_row() {
    let mut db = Database::new();
    let id = db
        .open_session("PC".to_string(), "Seat1".to_string(), 500, dt(2024, 3, 1, 10, 0))
        .unwrap();
    assert_eq!(id, 1);
    let rows = db.rows();
    assert_eq!(rows.len(), 1);
    let g = &rows[0];
    assert_eq!(g.total_cost, 0);
    assert!(g.end_time.is_none());
    assert!(g.elapsed_time.is_none());
    assert_eq!(g.category_name, "PC");
    assert_eq!(g.instance_name, "Seat1");
    assert_eq!(g.price_per_hour, 500);
}

#[test]
fn close_session_creates_closed_row() {
    let mut db = Database::new();
    db.open_session("PC".to_string(), "Seat1".to_string(), 500, dt(2024, 3, 1, 10, 0))
        .unwrap();
    let id = db
        .close_session(
            "PC".to_string(),
            "Seat1".to_string(),
            500,
            Some(3600),
            500,
            dt(2024, 3, 1, 10, 0),
            dt(2024, 3, 1, 11, 0),
        )
        .unwrap();
    assert_eq!(id, 2);
    let rows = db.rows();
    assert_eq!(rows.len(), 2);
    let g = &rows[1];
    assert!(g.total_cost > 0);
    assert!(g.end_time.is_some());
    assert_eq!(g.elapsed_time, Some(3600));
}

#[test]
fn insert_assigns_sequential_ids() {
    let mut db = Database::new();
    for k in 1..=5i16 {
        let id = db
            .insert_game(
                "PC".to_string(),
                format!("Seat{}", k),
                500,
                None,
                0,
                dt(2024, 1, 1, 9, 0),
                None,
            )
            .unwrap();
        assert_eq!(id, k);
    }
    assert_eq!(db.rows().len(), 5);
}

#[test]
fn delete_missing_id_succeeds() {
    let mut db = Database::new();
    db.open_session("PC".to_string(), "Seat1".to_string(), 500, dt(2024, 3, 1, 10, 0))
        .unwrap();
    let r = db.delete_game_by_id(999);
    assert_eq!(r, Ok(()));
    assert_eq!(db.rows().len(), 1);
}

#[test]
fn delete_by_id_removes_only_that_row() {
    let mut db = Database::new();
    let a = db
        .open_session("PC".to_string(), "Seat1".to_string(), 500, dt(2024, 3, 1, 10, 0))
        .unwrap();
    let b = db
        .open_session("PC".to_string(), "Seat2".to_string(), 500, dt(2024, 3, 1, 10, 5))
        .unwrap();
    db.delete_game_by_id(a).unwrap();
    let rows = db.rows();
    assert_eq!(rows.len(), 1);
    assert_eq!(rows[0].id, b);
    assert_eq!(rows[0].instance_name, "Seat2");
}

#[test]
fn delete_by_pair_removes_all_matches() {
    let mut db = Database::new();
    db.open_session("PC".to_string(), "Seat1".to_string(), 500, dt(2024, 3, 1, 10, 0))
        .unwrap();
    db.close_session(
        "PC".to_string(),
        "Seat1".to_string(),
        500,
        Some(60),
        100,
        dt(2024, 3, 1, 10, 0),
        dt(2024, 3, 1, 10, 1),
    )
    .unwrap();
    db.open_session("Console".to_string(), "Seat1".to_string(), 700, dt(2024, 3, 1, 11, 0))
        .unwrap();
    let r = db.delete_game_by_category_and_instance("PC", "Seat1");
    assert_eq!(r, Ok(()));
    let rows = db.rows();
    assert_eq!(rows.len(), 1);
    assert_eq!(rows[0].category_name, "Console");
}

#[test]
fn delete_missing_pair_succeeds() {
    let mut db = Database::new();
    let r = db.delete_game_by_category_and_instance("PC", "Nowhere");
    assert_eq!(r, Ok(()));
    assert_eq!(db.rows().len(), 0);
}

#[test]
fn id_exhaustion_reported() {
    // The store refuses an insert only once the id space runs out.
    let mut db = Database::new();
    let mut last: i16 = 0;
    loop {
        match db.open_session("PC".to_string(), "S".to_string(), 1, dt(2024, 1, 1, 0, 0)) {
            Ok(id) => last = id,
            Err(e) => {
                assert_eq!(e, StoreError::IdSpaceExhausted);
                break;
            }
        }
    }
    assert_eq!(last, i16::MAX - 1);
}
