use simulation::record::{AverageRecord, EventRecord, GamestateRecord};

#[test]
fn an_event_record_keeps_its_fields() {
    let record = EventRecord::new(
        9,
        -3,
        4,
        String::from("OTHER"),
        String::from("WALL"),
        120,
        77,
        5,
        u64::MAX,
    );
    assert_eq!(record.timestep, 9);
    assert_eq!(record.first_id, -3);
    assert_eq!(record.second_id, 4);
    assert_eq!(record.first, "OTHER");
    assert_eq!(record.second, "WALL");
    assert_eq!(record.pos_x, 120);
    assert_eq!(record.pos_y, 77);
    assert_eq!(record.first_score, 5);
    assert_eq!(record.second_score, u64::MAX);
}

#[test]
fn a_snapshot_record_keeps_its_fields() {
    let record = GamestateRecord::new(3, -1_500_000, 2_250_000, 8, 400, -2, "HERBIVORE");
    assert_eq!(record.timestep, 3);
    assert_eq!(record.x, -1_500_000);
    assert_eq!(record.y, 2_250_000);
    assert_eq!(record.id, 8);
    assert_eq!(record.health, 400);
    assert_eq!(record.score, -2);
    assert_eq!(record.entity, "HERBIVORE");
}

#[test]
fn an_average_record_keeps_its_fields_apart() {
    let r = AverageRecord::new(1, 2, 3, 4, 5, 6, 7, 8, 9, 10, 11, 12, 13);
    assert_eq!(r.timestep, 1);
    assert_eq!((r.prey_avg_score, r.hunter1_avg_score, r.hunter2_avg_score), (2, 3, 4));
    assert_eq!((r.prey_avg_health, r.hunter1_avg_health, r.hunter2_avg_health), (5, 6, 7));
    assert_eq!((r.top_prey_avg_score, r.top_hunter1_avg_score, r.top_hunter2_avg_score), (8, 9, 10));
    assert_eq!((r.top_prey_avg_health, r.top_hunter1_avg_health, r.top_hunter2_avg_health), (11, 12, 13));
}
