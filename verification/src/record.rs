//! The rows of the three telemetry streams.
use vstd::prelude::*;

verus! {

/// One row of the snapshot stream: where an agent is and how it fares.
pub struct GamestateRecord<'a> {
    pub timestep: u64,
    pub x: i64,
    pub y: i64,
    pub id: u64,
    pub health: i32,
    pub score: i32,
    pub entity: &'a str,
}

impl<'a> GamestateRecord<'a> {
    pub fn new(
        timestep: u64,
        x: i64,
        y: i64,
        id: u64,
        health: i32,
        score: i32,
        entity: &'a str,
    ) -> (record: Self)
        ensures
            record.timestep == timestep,
            record.x == x,
            record.y == y,
            record.id == id,
            record.health == health,
            record.score == score,
            record.entity == entity,
    {
        GamestateRecord { timestep, x, y, id, health, score, entity }
    }
}

/// One row of the event stream: two bodies came into contact at a tick.
pub struct EventRecord {
    pub timestep: u64,
    pub first_id: i32,
    pub second_id: i32,
    pub first: String,
    pub second: String,
    pub pos_x: u64,
    pub pos_y: u64,
    pub first_score: u64,
    pub second_score: u64,
}

/// A row of the event stream as the proofs see it.
pub struct EventRow {
    pub timestep: u64,
    pub first_id: i32,
    pub second_id: i32,
    pub first: Seq<char>,
    pub second: Seq<char>,
    pub pos_x: u64,
    pub pos_y: u64,
    pub first_score: u64,
    pub second_score: u64,
}

impl View for EventRecord {
    type V = EventRow;

    open spec fn view(&self) -> EventRow {
        EventRow {
            timestep: self.timestep,
            first_id: self.first_id,
            second_id: self.second_id,
            first: self.first@,
            second: self.second@,
            pos_x: self.pos_x,
            pos_y: self.pos_y,
            first_score: self.first_score,
            second_score: self.second_score,
        }
    }
}

/// The rows that a sequence of records stands for.
pub open spec fn rows_of(records: Seq<EventRecord>) -> Seq<EventRow> {
    Seq::new(records.len(), |i: int| records[i]@)
}

impl EventRecord {
    pub fn new(
        timestep: u64,
        first_id: i32,
        second_id: i32,
        first: String,
        second: String,
        pos_x: u64,
        pos_y: u64,
        first_score: u64,
        second_score: u64,
    ) -> (record: Self)
        ensures
            record@ == (EventRow {
                timestep,
                first_id,
                second_id,
                first: first@,
                second: second@,
                pos_x,
                pos_y,
                first_score,
                second_score,
            }),
    {
        EventRecord {
            timestep,
            first_id,
            second_id,
            first,
            second,
            pos_x,
            pos_y,
            first_score,
            second_score,
        }
    }
}

/// One row of the aggregate stream: the averages of health and score of
/// each population and of its top tenth, as fixed-point numbers.
pub struct AverageRecord {
    pub timestep: u64,
    pub prey_avg_score: i64,
    pub hunter1_avg_score: i64,
    pub hunter2_avg_score: i64,
    pub prey_avg_health: i64,
    pub hunter1_avg_health: i64,
    pub hunter2_avg_health: i64,
    pub top_prey_avg_score: i64,
    pub top_hunter1_avg_score: i64,
    pub top_hunter2_avg_score: i64,
    pub top_prey_avg_health: i64,
    pub top_hunter1_avg_health: i64,
    pub top_hunter2_avg_health: i64,
}

impl AverageRecord {
    pub fn new(
        timestep: u64,
        prey_avg_score: i64,
        hunter1_avg_score: i64,
        hunter2_avg_score: i64,
        prey_avg_health: i64,
        hunter1_avg_health: i64,
        hunter2_avg_health: i64,
        top_prey_avg_score: i64,
        top_hunter1_avg_score: i64,
        top_hunter2_avg_score: i64,
        top_prey_avg_health: i64,
        top_hunter1_avg_health: i64,
        top_hunter2_avg_health: i64,
    ) -> (record: Self)
        ensures
            record == (AverageRecord {
                timestep,
                prey_avg_score,
                hunter1_avg_score,
                hunter2_avg_score,
                prey_avg_health,
                hunter1_avg_health,
                hunter2_avg_health,
                top_prey_avg_score,
                top_hunter1_avg_score,
                top_hunter2_avg_score,
                top_prey_avg_health,
                top_hunter1_avg_health,
                top_hunter2_avg_health,
            }),
    {
        AverageRecord {
            timestep,
            prey_avg_score,
            hunter1_avg_score,
            hunter2_avg_score,
            prey_avg_health,
            hunter1_avg_health,
            hunter2_avg_health,
            top_prey_avg_score,
            top_hunter1_avg_score,
            top_hunter2_avg_score,
            top_prey_avg_health,
            top_hunter1_avg_health,
            top_hunter2_avg_health,
        }
    }
}

} // verus!
