//! Tests of the whole tick cycle: GPU sync in, script logs, commit, sync
//! back out.

use sandsim::bridge::{get_entity_value, set_entity_value};
use sandsim::delta::{ProtocolError, TickLog, Value};
use sandsim::ecs::{regen_from_cpu, regen_from_gpu, regenerate};
use sandsim::entity::{Entity, Hitbox, Sprite, Vec2Bits};

fn num(v: f32) -> Value {
    Value::Num(v.to_bits())
}

fn bits2(x: f32, y: f32) -> Vec2Bits {
    Vec2Bits { x: x.to_bits(), y: y.to_bits() }
}

fn world(n: usize) -> Vec<Entity> {
    let mut es = Vec::new();
    for _ in 0..n {
        es.push(Entity::default());
    }
    es
}

fn hitboxes_of(es: &[Entity]) -> Vec<Hitbox> {
    es.iter().map(|e| e.hitbox).collect()
}

fn sprites_of(es: &[Entity]) -> Vec<Sprite> {
    es.iter().map(|e| e.sprite).collect()
}

#[test]
fn gpu_sync_overwrites_hitboxes_only() {
    let mut es = world(2);
    es[0].sprite.pos = bits2(5.0, 6.0);
    es[0].data = "keep".to_owned();
    let mut gpu = hitboxes_of(&es);
    gpu[0].pos = bits2(9.0, 9.0);
    gpu[1].vel = bits2(1.0, 0.0);
    regen_from_gpu(&mut es, &gpu);
    assert_eq!(es[0].hitbox.pos, bits2(9.0, 9.0));
    assert_eq!(es[1].hitbox.vel, bits2(1.0, 0.0));
    assert_eq!(es[0].sprite.pos, bits2(5.0, 6.0));
    assert_eq!(es[0].data, "keep");
}

#[test]
fn cpu_sync_mirrors_both_halves_in_order() {
    let mut es = world(2);
    es[0].sprite.pos = bits2(1.0, 2.0);
    es[1].hitbox.mass = 4.5f32.to_bits();
    let mut sb = vec![Sprite::default(); 2];
    let mut hb = vec![Hitbox::default(); 2];
    regen_from_cpu(&es, &mut sb, &mut hb);
    assert_eq!(sb[0], es[0].sprite);
    assert_eq!(sb[1], es[1].sprite);
    assert_eq!(hb[0], es[0].hitbox);
    assert_eq!(hb[1], es[1].hitbox);
}

#[test]
fn committed_sprite_position_survives_a_gpu_sync() {
    // stage a sprite position, commit it, then sync from the GPU again:
    // the GPU never touches sprite fields, so (3.0, 4.0) must survive
    let mut es = world(1);
    let mut log = TickLog::new();
    set_entity_value(&mut log, 0, "sprite.pos".to_owned(), num(3.0), Some(num(4.0)));
    let gpu = hitboxes_of(&es);
    let mut sb = sprites_of(&es);
    let mut hb = hitboxes_of(&es);
    assert_eq!(regenerate(&mut es, &gpu, &log, &mut sb, &mut hb), Ok(()));
    assert_eq!(es[0].sprite.pos, bits2(3.0, 4.0));
    assert_eq!(sb[0].pos, bits2(3.0, 4.0));
    let gpu2 = hitboxes_of(&es);
    regen_from_gpu(&mut es, &gpu2);
    assert_eq!(es[0].sprite.pos, bits2(3.0, 4.0));
}

#[test]
fn one_full_tick_end_to_end() {
    // a world of one entity at hitbox.pos = (0, 0); the script stages
    // hitbox.pos = (1, 1); after the tick a pre-delta read of the next
    // tick sees (1, 1), since the GPU readback did not move it
    let mut es = world(1);
    let mut log = TickLog::new();
    set_entity_value(&mut log, 0, "hitbox.pos".to_owned(), num(1.0), Some(num(1.0)));
    let gpu = hitboxes_of(&es);
    let mut sb = sprites_of(&es);
    let mut hb = hitboxes_of(&es);
    assert_eq!(regenerate(&mut es, &gpu, &log, &mut sb, &mut hb), Ok(()));
    assert_eq!(es[0].hitbox.pos, bits2(1.0, 1.0));
    assert_eq!(hb[0].pos, bits2(1.0, 1.0));
    // next tick: fresh log, GPU hands the same hitbox back
    let gpu2 = hitboxes_of(&es);
    regen_from_gpu(&mut es, &gpu2);
    let next_log = TickLog::new();
    let v = get_entity_value(&es, &next_log, 0, "hitbox.pos").unwrap();
    assert_eq!(v, Value::Vec2(1.0f32.to_bits(), 1.0f32.to_bits()));
}

#[test]
fn a_gpu_write_to_the_same_field_wins_the_next_tick() {
    // the same end-to-end flow, but the next tick's GPU readback moves the
    // hitbox: the sync overwrites what the delta committed
    let mut es = world(1);
    let mut log = TickLog::new();
    set_entity_value(&mut log, 0, "hitbox.pos".to_owned(), num(1.0), Some(num(1.0)));
    let gpu = hitboxes_of(&es);
    let mut sb = sprites_of(&es);
    let mut hb = hitboxes_of(&es);
    assert_eq!(regenerate(&mut es, &gpu, &log, &mut sb, &mut hb), Ok(()));
    let mut gpu2 = hitboxes_of(&es);
    gpu2[0].pos = bits2(2.5, 2.5);
    regen_from_gpu(&mut es, &gpu2);
    let next_log = TickLog::new();
    let v = get_entity_value(&es, &next_log, 0, "hitbox.pos").unwrap();
    assert_eq!(v, Value::Vec2(2.5f32.to_bits(), 2.5f32.to_bits()));
}

#[test]
fn regenerate_commits_creations_after_deltas() {
    let mut es = world(2);
    es[1].deleted = true;
    es[1].hitbox.deleted = 1;
    es[1].sprite.deleted = 1;
    let mut log = TickLog::new();
    set_entity_value(&mut log, 0, "data".to_owned(), Value::Str("x".to_owned()), None);
    log.creations.push(1);
    let gpu = hitboxes_of(&es);
    let mut sb = sprites_of(&es);
    let mut hb = hitboxes_of(&es);
    assert_eq!(regenerate(&mut es, &gpu, &log, &mut sb, &mut hb), Ok(()));
    assert_eq!(es[0].data, "x");
    assert_eq!(es[1].data, "clean");
    assert!(!es[1].deleted);
    assert_eq!(hb[1].deleted, 0);
}

#[test]
fn regenerate_aborts_on_a_bad_delta_and_leaves_buffers_alone() {
    let mut es = world(1);
    let mut log = TickLog::new();
    set_entity_value(&mut log, 0, "bogus".to_owned(), num(1.0), None);
    let gpu = hitboxes_of(&es);
    let mut sb = sprites_of(&es);
    let mut hb = hitboxes_of(&es);
    let marker = bits2(42.0, 42.0);
    sb[0].offset = marker;
    hb[0].vel = marker;
    assert_eq!(
        regenerate(&mut es, &gpu, &log, &mut sb, &mut hb),
        Err(ProtocolError::UnknownPath)
    );
    assert_eq!(sb[0].offset, marker);
    assert_eq!(hb[0].vel, marker);
}

#[test]
fn regenerate_aborts_on_the_exhaustion_sentinel() {
    let mut es = world(1);
    let mut log = TickLog::new();
    log.creations.push(-1);
    let gpu = hitboxes_of(&es);
    let mut sb = sprites_of(&es);
    let mut hb = hitboxes_of(&es);
    assert_eq!(
        regenerate(&mut es, &gpu, &log, &mut sb, &mut hb),
        Err(ProtocolError::Exhausted)
    );
}

#[test]
fn an_empty_world_ticks_without_effect() {
    let mut es = world(0);
    let log = TickLog::new();
    let gpu: Vec<Hitbox> = Vec::new();
    let mut sb: Vec<Sprite> = Vec::new();
    let mut hb: Vec<Hitbox> = Vec::new();
    assert_eq!(regenerate(&mut es, &gpu, &log, &mut sb, &mut hb), Ok(()));
    assert!(es.is_empty());
}

#[test]
fn deleted_entities_keep_their_slot_through_a_tick() {
    let mut es = world(3);
    es[2].data = "third".to_owned();
    let mut log = TickLog::new();
    set_entity_value(&mut log, 0, "deleted".to_owned(), Value::Bool(true), None);
    let gpu = hitboxes_of(&es);
    let mut sb = sprites_of(&es);
    let mut hb = hitboxes_of(&es);
    assert_eq!(regenerate(&mut es, &gpu, &log, &mut sb, &mut hb), Ok(()));
    // indices stay stable: nothing shifted down
    assert_eq!(es.len(), 3);
    assert!(es[0].deleted);
    assert_eq!(es[2].data, "third");
    assert_eq!(sb[0].deleted, 1);
}
