//! Tests of the component store and the delta application path.

use sandsim::delta::{parse_path, Delta, FieldPath, ProtocolError, TickLog, Value};
use sandsim::ecs::{apply_creations, apply_deltas};
use sandsim::entity::{fresh_entity, Entity, Vec2Bits};
use sandsim::store::{allocate, get, set_field};

fn num(v: f32) -> Value {
    Value::Num(v.to_bits())
}

fn bits2(x: f32, y: f32) -> Vec2Bits {
    Vec2Bits { x: x.to_bits(), y: y.to_bits() }
}

fn world(n: usize) -> Vec<Entity> {
    let mut es = Vec::new();
    for _ in 0..n {
        es.push(Entity::default());
    }
    es
}

#[test]
fn parse_path_covers_the_closed_set() {
    assert_eq!(parse_path("sprite.pos"), Some(FieldPath::SpritePos));
    assert_eq!(parse_path("sprite.size"), Some(FieldPath::SpriteSize));
    assert_eq!(parse_path("sprite.offset"), Some(FieldPath::SpriteOffset));
    assert_eq!(parse_path("sprite.scale"), Some(FieldPath::SpriteScale));
    assert_eq!(parse_path("hitbox.pos"), Some(FieldPath::HitboxPos));
    assert_eq!(parse_path("hitbox.size"), Some(FieldPath::HitboxSize));
    assert_eq!(parse_path("hitbox.mass"), Some(FieldPath::HitboxMass));
    assert_eq!(parse_path("hitbox.simulate"), Some(FieldPath::HitboxSimulate));
    assert_eq!(parse_path("data"), Some(FieldPath::Data));
    assert_eq!(parse_path("deleted"), Some(FieldPath::Deleted));
    assert_eq!(parse_path("hitbox.vel"), None);
    assert_eq!(parse_path(""), None);
    assert_eq!(parse_path("sprite.pos "), None);
}

#[test]
fn default_entity_is_zeroed_and_live() {
    let e = Entity::default();
    assert_eq!(e.sprite.pos, Vec2Bits { x: 0, y: 0 });
    assert_eq!(e.sprite.deleted, 0);
    assert_eq!(e.hitbox.mass, 0);
    assert_eq!(e.hitbox.simulate, 0);
    assert_eq!(e.data, "");
    assert!(!e.deleted);
}

#[test]
fn fresh_entity_is_tagged_clean() {
    let e = fresh_entity();
    assert_eq!(e.data, "clean");
    assert!(!e.deleted);
    assert_eq!(e.sprite.deleted, 0);
    assert_eq!(e.hitbox.deleted, 0);
}

#[test]
fn get_reads_in_range_and_rejects_out_of_range() {
    let mut es = world(2);
    es[1].hitbox.mass = 7.5f32.to_bits();
    let e = get(&es, 1).unwrap();
    assert_eq!(e.hitbox.mass, 7.5f32.to_bits());
    assert_eq!(get(&es, 2).unwrap_err(), ProtocolError::IndexOutOfRange);
}

#[test]
fn set_field_writes_through_sprite_pos() {
    let mut es = world(1);
    let r = set_field(&mut es, 0, "sprite.pos", &num(3.0), &num(4.0));
    assert_eq!(r, Ok(()));
    assert_eq!(es[0].sprite.pos, bits2(3.0, 4.0));
}

#[test]
fn set_field_coerces_booleans_to_ints() {
    let mut es = world(1);
    set_field(&mut es, 0, "hitbox.simulate", &Value::Bool(true), &Value::Nil).unwrap();
    assert_eq!(es[0].hitbox.simulate, 1);
    set_field(&mut es, 0, "hitbox.simulate", &Value::Bool(false), &Value::Nil).unwrap();
    assert_eq!(es[0].hitbox.simulate, 0);
}

#[test]
fn set_field_rejects_unknown_path() {
    let mut es = world(1);
    let r = set_field(&mut es, 0, "sprite.mass", &num(1.0), &num(0.0));
    assert_eq!(r, Err(ProtocolError::UnknownPath));
}

#[test]
fn set_field_rejects_out_of_range_index() {
    let mut es = world(1);
    let r = set_field(&mut es, 1, "hitbox.mass", &num(1.0), &num(0.0));
    assert_eq!(r, Err(ProtocolError::IndexOutOfRange));
}

#[test]
fn set_field_rejects_mismatched_variant() {
    let mut es = world(1);
    let r = set_field(&mut es, 0, "hitbox.mass", &Value::Bool(true), &num(0.0));
    assert_eq!(r, Err(ProtocolError::TypeMismatch));
    let r = set_field(&mut es, 0, "deleted", &num(1.0), &num(0.0));
    assert_eq!(r, Err(ProtocolError::TypeMismatch));
    let r = set_field(&mut es, 0, "sprite.size", &num(1.0), &Value::Nil);
    assert_eq!(r, Err(ProtocolError::TypeMismatch));
}

#[test]
fn deleting_tombstones_and_clears_simulate() {
    let mut es = world(1);
    es[0].hitbox.simulate = 1;
    set_field(&mut es, 0, "deleted", &Value::Bool(true), &Value::Nil).unwrap();
    assert!(es[0].deleted);
    assert_eq!(es[0].sprite.deleted, 1);
    assert_eq!(es[0].hitbox.deleted, 1);
    assert_eq!(es[0].hitbox.simulate, 0);
}

#[test]
fn undeleting_clears_tombstones_but_not_more() {
    let mut es = world(1);
    es[0].hitbox.simulate = 1;
    set_field(&mut es, 0, "deleted", &Value::Bool(false), &Value::Nil).unwrap();
    assert!(!es[0].deleted);
    assert_eq!(es[0].sprite.deleted, 0);
    assert_eq!(es[0].hitbox.deleted, 0);
    assert_eq!(es[0].hitbox.simulate, 1);
}

#[test]
fn allocate_reuses_lowest_tombstone() {
    let mut es = world(4);
    es[1].deleted = true;
    es[3].deleted = true;
    let i = allocate(&mut es).unwrap();
    assert_eq!(i, 1);
    assert_eq!(es[1].data, "clean");
    assert!(!es[1].deleted);
    assert_eq!(es.len(), 4);
}

#[test]
fn allocate_signals_exhaustion_when_all_live() {
    let mut es = world(3);
    let r = allocate(&mut es);
    assert_eq!(r.unwrap_err(), ProtocolError::Exhausted);
    assert_eq!(es.len(), 3);
}

#[test]
fn apply_deltas_walks_in_accumulation_order() {
    let mut es = world(2);
    let deltas = vec![
        Delta { index: 0, path: "hitbox.mass".to_owned(), value: num(5.0), value2: num(0.0) },
        Delta {
            index: 1,
            path: "data".to_owned(),
            value: Value::Str("hi".to_owned()),
            value2: num(0.0),
        },
        Delta { index: 0, path: "hitbox.mass".to_owned(), value: num(7.0), value2: num(0.0) },
    ];
    assert_eq!(apply_deltas(&mut es, &deltas), Ok(()));
    assert_eq!(es[0].hitbox.mass, 7.0f32.to_bits());
    assert_eq!(es[1].data, "hi");
}

#[test]
fn apply_deltas_matches_last_per_key() {
    // the general law, on concrete values: the full log and the collapsed
    // log end in the same state
    let deltas = vec![
        Delta { index: 0, path: "sprite.pos".to_owned(), value: num(1.0), value2: num(1.0) },
        Delta { index: 0, path: "hitbox.mass".to_owned(), value: num(2.0), value2: num(0.0) },
        Delta { index: 0, path: "sprite.pos".to_owned(), value: num(9.0), value2: num(8.0) },
    ];
    let collapsed = vec![deltas[1].clone(), deltas[2].clone()];
    let mut full = world(1);
    let mut short = world(1);
    assert_eq!(apply_deltas(&mut full, &deltas), Ok(()));
    assert_eq!(apply_deltas(&mut short, &collapsed), Ok(()));
    assert_eq!(full[0].sprite, short[0].sprite);
    assert_eq!(full[0].hitbox, short[0].hitbox);
    assert_eq!(full[0].data, short[0].data);
    assert_eq!(full[0].deleted, short[0].deleted);
    assert_eq!(full[0].sprite.pos, bits2(9.0, 8.0));
    assert_eq!(full[0].hitbox.mass, 2.0f32.to_bits());
}

#[test]
fn apply_deltas_stops_at_first_bad_delta() {
    let mut es = world(1);
    let deltas = vec![
        Delta { index: 0, path: "hitbox.mass".to_owned(), value: num(5.0), value2: num(0.0) },
        Delta { index: 0, path: "bogus".to_owned(), value: num(1.0), value2: num(0.0) },
        Delta { index: 0, path: "hitbox.mass".to_owned(), value: num(9.0), value2: num(0.0) },
    ];
    assert_eq!(apply_deltas(&mut es, &deltas), Err(ProtocolError::UnknownPath));
    // the write before the failure landed; the one after did not
    assert_eq!(es[0].hitbox.mass, 5.0f32.to_bits());
}

#[test]
fn apply_creations_resets_claimed_slots() {
    let mut es = world(3);
    es[0].deleted = true;
    es[0].data = "old".to_owned();
    es[2].deleted = true;
    let creations = vec![0i64, 2i64];
    assert_eq!(apply_creations(&mut es, &creations), Ok(()));
    assert_eq!(es[0].data, "clean");
    assert!(!es[0].deleted);
    assert_eq!(es[2].data, "clean");
    assert!(!es[2].deleted);
    assert_eq!(es[1].data, "");
    assert_eq!(es.len(), 3);
}

#[test]
fn committing_the_exhaustion_sentinel_is_fatal() {
    let mut es = world(1);
    let creations = vec![-1i64];
    assert_eq!(apply_creations(&mut es, &creations), Err(ProtocolError::Exhausted));
}

#[test]
fn committing_an_out_of_range_creation_is_fatal() {
    let mut es = world(2);
    let creations = vec![5i64];
    assert_eq!(apply_creations(&mut es, &creations), Err(ProtocolError::IndexOutOfRange));
}

#[test]
fn tick_log_starts_empty() {
    let log = TickLog::new();
    assert!(log.deltas.is_empty());
    assert!(log.creations.is_empty());
}
