//! Tests of the script-facing bridge: enumeration, staged reads with
//! read-your-writes, staged writes, and deferred creation.

use sandsim::bridge::{
    create_entity, get_cur_frame, get_cur_time, get_entities, get_entity_value, set_entity_value,
};
use sandsim::delta::{ProtocolError, TickLog, Value};
use sandsim::entity::Entity;

fn num(v: f32) -> Value {
    Value::Num(v.to_bits())
}

fn world(n: usize) -> Vec<Entity> {
    let mut es = Vec::new();
    for _ in 0..n {
        es.push(Entity::default());
    }
    es
}

#[test]
fn get_entities_skips_tombstones_in_order() {
    let mut es = world(4);
    es[1].deleted = true;
    assert_eq!(get_entities(&es), vec![0usize, 2, 3]);
    es[0].deleted = true;
    es[3].deleted = true;
    assert_eq!(get_entities(&es), vec![2usize]);
}

#[test]
fn an_empty_world_enumerates_nothing_and_exhausts_creation() {
    let es = world(0);
    assert_eq!(get_entities(&es), Vec::<usize>::new());
    let mut log = TickLog::new();
    assert_eq!(create_entity(&mut log, &es), -1);
}

#[test]
fn frame_and_time_read_back_unchanged() {
    assert_eq!(get_cur_frame(41), 41);
    assert_eq!(get_cur_time(123456u128), 123456u128);
}

#[test]
fn read_your_writes_returns_the_staged_value() {
    let mut es = world(2);
    es[1].hitbox.mass = 2.0f32.to_bits();
    let mut log = TickLog::new();
    set_entity_value(&mut log, 1, "hitbox.mass".to_owned(), num(5.0), None);
    // the staged value, not the pre-tick 2.0
    let v = get_entity_value(&es, &log, 1, "hitbox.mass").unwrap();
    assert_eq!(v, num(5.0));
    // the store itself is untouched until the log is committed
    assert_eq!(es[1].hitbox.mass, 2.0f32.to_bits());
}

#[test]
fn the_last_staged_delta_wins_a_read() {
    let es = world(1);
    let mut log = TickLog::new();
    set_entity_value(&mut log, 0, "hitbox.mass".to_owned(), num(5.0), None);
    set_entity_value(&mut log, 0, "hitbox.mass".to_owned(), num(7.0), None);
    assert_eq!(get_entity_value(&es, &log, 0, "hitbox.mass").unwrap(), num(7.0));
}

#[test]
fn a_read_without_a_staged_delta_sees_the_store() {
    let mut es = world(1);
    es[0].sprite.pos.x = 3.0f32.to_bits();
    es[0].sprite.pos.y = 4.0f32.to_bits();
    let log = TickLog::new();
    let v = get_entity_value(&es, &log, 0, "sprite.pos").unwrap();
    assert_eq!(v, Value::Vec2(3.0f32.to_bits(), 4.0f32.to_bits()));
}

#[test]
fn a_staged_delta_for_another_key_does_not_shadow() {
    let mut es = world(2);
    es[0].hitbox.mass = 2.0f32.to_bits();
    let mut log = TickLog::new();
    set_entity_value(&mut log, 1, "hitbox.mass".to_owned(), num(9.0), None);
    set_entity_value(&mut log, 0, "hitbox.size".to_owned(), num(9.0), Some(num(9.0)));
    assert_eq!(get_entity_value(&es, &log, 0, "hitbox.mass").unwrap(), num(2.0));
}

#[test]
fn reads_report_protocol_failures() {
    let es = world(1);
    let log = TickLog::new();
    assert_eq!(get_entity_value(&es, &log, 0, "bogus").unwrap_err(), ProtocolError::UnknownPath);
    assert_eq!(
        get_entity_value(&es, &log, 1, "hitbox.mass").unwrap_err(),
        ProtocolError::IndexOutOfRange
    );
}

#[test]
fn a_badly_typed_staged_delta_poisons_the_read() {
    let es = world(1);
    let mut log = TickLog::new();
    set_entity_value(&mut log, 0, "hitbox.mass".to_owned(), Value::Bool(true), None);
    assert_eq!(
        get_entity_value(&es, &log, 0, "hitbox.mass").unwrap_err(),
        ProtocolError::TypeMismatch
    );
}

#[test]
fn boolean_fields_read_back_as_booleans() {
    let mut es = world(1);
    es[0].hitbox.simulate = 1;
    let log = TickLog::new();
    assert_eq!(get_entity_value(&es, &log, 0, "hitbox.simulate").unwrap(), Value::Bool(true));
    assert_eq!(get_entity_value(&es, &log, 0, "deleted").unwrap(), Value::Bool(false));
}

#[test]
fn the_payload_reads_back_as_a_string() {
    let mut es = world(1);
    es[0].data = "state".to_owned();
    let log = TickLog::new();
    assert_eq!(
        get_entity_value(&es, &log, 0, "data").unwrap(),
        Value::Str("state".to_owned())
    );
}

#[test]
fn a_missing_second_scalar_defaults_to_zero() {
    let mut log = TickLog::new();
    set_entity_value(&mut log, 0, "sprite.pos".to_owned(), num(3.0), None);
    assert_eq!(log.deltas.len(), 1);
    assert_eq!(log.deltas[0].value2, Value::Num(0));
    assert_eq!(log.deltas[0].value2, num(0.0));
}

#[test]
fn staging_does_not_validate_the_path() {
    let mut log = TickLog::new();
    set_entity_value(&mut log, 0, "bogus".to_owned(), num(1.0), None);
    assert_eq!(log.deltas.len(), 1);
    assert_eq!(log.deltas[0].path, "bogus");
}

#[test]
fn creation_reuses_the_lowest_tombstone() {
    let mut es = world(4);
    es[2].deleted = true;
    es[3].deleted = true;
    let mut log = TickLog::new();
    let r = create_entity(&mut log, &es);
    assert_eq!(r, 2);
    assert_eq!(log.creations, vec![2i64]);
}

#[test]
fn creation_accounts_for_slots_claimed_this_tick() {
    let mut es = world(4);
    es[1].deleted = true;
    es[3].deleted = true;
    let mut log = TickLog::new();
    assert_eq!(create_entity(&mut log, &es), 1);
    // the same tombstones are still in the store, but slot 1 is claimed
    assert_eq!(create_entity(&mut log, &es), 3);
    assert_eq!(create_entity(&mut log, &es), -1);
    assert_eq!(log.creations, vec![1i64, 3, -1]);
}

#[test]
fn creation_yields_the_sentinel_when_no_tombstone_exists() {
    let es = world(3);
    let mut log = TickLog::new();
    assert_eq!(create_entity(&mut log, &es), -1);
    assert_eq!(log.creations, vec![-1i64]);
}
