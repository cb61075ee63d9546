//! The host-side functions exposed to the embedded script environment.
//!
//! Scripts never touch the entity array directly: reads go against the
//! tick's read-only snapshot overlaid with the deltas already staged this
//! tick (read-your-writes), and writes and creation requests are queued
//! into the per-tick logs the coordinator commits after the script returns.

use vstd::prelude::*;

use crate::delta::{
    bool_of, num_of, path_matches, spec_parse_path, staged_write_ok, str_of, Delta, FieldPath,
    ProtocolError, TickLog, Value,
};
use crate::ecs::spec_claimed_upto;
use crate::entity::Entity;

verus! {

/// The value a path reads off an entity, before any staged delta is
/// considered.  Boolean-as-int fields come back as booleans.
pub open spec fn base_read_value(e: Entity, fp: FieldPath) -> Value {
    match fp {
        FieldPath::SpritePos => Value::Vec2(e.sprite.pos.x, e.sprite.pos.y),
        FieldPath::SpriteSize => Value::Vec2(e.sprite.size.x, e.sprite.size.y),
        FieldPath::SpriteOffset => Value::Vec2(e.sprite.offset.x, e.sprite.offset.y),
        FieldPath::SpriteScale => Value::Vec2(e.sprite.scale.x, e.sprite.scale.y),
        FieldPath::HitboxPos => Value::Vec2(e.hitbox.pos.x, e.hitbox.pos.y),
        FieldPath::HitboxSize => Value::Vec2(e.hitbox.size.x, e.hitbox.size.y),
        FieldPath::HitboxMass => Value::Num(e.hitbox.mass),
        FieldPath::HitboxSimulate => Value::Bool(e.hitbox.simulate == 1),
        FieldPath::Data => Value::Str(e.data),
        FieldPath::Deleted => Value::Bool(e.deleted),
    }
}

/// The value a staged delta hands back to a read of its own path.
pub open spec fn staged_read_value(fp: FieldPath, d: Delta) -> Value
    recommends
        staged_write_ok(fp, d.value, d.value2),
{
    match fp {
        FieldPath::SpritePos => Value::Vec2(num_of(d.value), num_of(d.value2)),
        FieldPath::SpriteSize => Value::Vec2(num_of(d.value), num_of(d.value2)),
        FieldPath::SpriteOffset => Value::Vec2(num_of(d.value), num_of(d.value2)),
        FieldPath::SpriteScale => Value::Vec2(num_of(d.value), num_of(d.value2)),
        FieldPath::HitboxPos => Value::Vec2(num_of(d.value), num_of(d.value2)),
        FieldPath::HitboxSize => Value::Vec2(num_of(d.value), num_of(d.value2)),
        FieldPath::HitboxMass => Value::Num(num_of(d.value)),
        FieldPath::HitboxSimulate => Value::Bool(bool_of(d.value)),
        FieldPath::Data => Value::Str(str_of(d.value)),
        FieldPath::Deleted => Value::Bool(bool_of(d.value)),
    }
}

/// Walks the delta log in accumulation order, replacing the read value
/// with each staged value for the queried `(index, path)` pair, so the
/// last staged one wins.  A matching delta whose staged variants do not
/// fit the field stops the read.
pub open spec fn spec_scan_staged(
    cur: Value,
    ds: Seq<Delta>,
    id: int,
    path: Seq<char>,
    fp: FieldPath,
) -> Result<Value, ProtocolError>
    decreases ds.len(),
{
    if ds.len() == 0 {
        Ok(cur)
    } else {
        let d = ds[0];
        if d.index as int == id && d.path@ == path {
            if staged_write_ok(fp, d.value, d.value2) {
                spec_scan_staged(staged_read_value(fp, d), ds.drop_first(), id, path, fp)
            } else {
                Err(ProtocolError::TypeMismatch)
            }
        } else {
            spec_scan_staged(cur, ds.drop_first(), id, path, fp)
        }
    }
}

/// What a script read returns: the current component value, unless a delta
/// staged this tick for the same `(index, path)` overrides it — then the
/// last staged value, read back before anything was committed.
pub open spec fn spec_get_value(
    es: Seq<Entity>,
    ds: Seq<Delta>,
    id: int,
    path: Seq<char>,
) -> Result<Value, ProtocolError> {
    match spec_parse_path(path) {
        None => Err(ProtocolError::UnknownPath),
        Some(fp) => if !(0 <= id && id < es.len()) {
            Err(ProtocolError::IndexOutOfRange)
        } else {
            spec_scan_staged(base_read_value(es[id], fp), ds, id, path, fp)
        },
    }
}

/// The indices of the live (non-tombstoned) entities among the first `n`
/// slots, in slot order.
pub open spec fn spec_live_indices(es: Seq<Entity>, n: int) -> Seq<usize>
    decreases n,
{
    if n <= 0 {
        Seq::empty()
    } else if es[n - 1].deleted {
        spec_live_indices(es, n - 1)
    } else {
        spec_live_indices(es, n - 1).push((n - 1) as usize)
    }
}

/// Whether slot `j` is tombstoned and not yet claimed by an earlier
/// creation call this tick — the slots a new creation may take.
pub open spec fn free_slot(es: Seq<Entity>, cs: Seq<i64>, j: int) -> bool {
    es[j].deleted && !spec_claimed_upto(cs, cs.len() as int, j)
}

/// The enumeration handed to scripts: indices of all non-deleted entities,
/// in slot order, tombstoned slots skipped.
pub fn get_entities(entities: &Vec<Entity>) -> (r: Vec<usize>)
    ensures
        r@ == spec_live_indices(entities@, entities@.len() as int),
{
    let n = entities.len();
    let mut out: Vec<usize> = Vec::new();
    let mut i: usize = 0;
    while i < n
        invariant
            n == entities@.len(),
            i <= n,
            out@ == spec_live_indices(entities@, i as int),
        decreases n - i,
    {
        if !entities[i].deleted {
            out.push(i);
        }
        i = i + 1;
    }
    out
}

/// The frame counter, read for the script's benefit.
pub fn get_cur_frame(frame: usize) -> (r: usize)
    ensures
        r == frame,
{
    frame
}

/// The elapsed-milliseconds counter, read for the script's benefit.
pub fn get_cur_time(time: u128) -> (r: u128)
    ensures
        r == time,
{
    time
}

/// Stages one mutation: appends `(index, path, value, value2)` to the
/// tick's delta log without touching the entity array.  A missing second
/// scalar defaults to a zero number.  The path is not validated here —
/// an unknown path surfaces when the log is read back or committed.
pub fn set_entity_value(log: &mut TickLog, id: usize, path: String, value: Value, value2: Option<
    Value,
>)
    ensures
        final(log).creations@ == old(log).creations@,
        final(log).deltas@ == old(log).deltas@.push(
            Delta {
                index: id,
                path: path,
                value: value,
                value2: match value2 {
                    Some(v) => v,
                    None => Value::Num(0),
                },
            },
        ),
{
    let v2 = match value2 {
        Some(v) => v,
        None => Value::Num(0),
    };
    log.deltas.push(Delta { index: id, path, value, value2: v2 });
}

/// Reads a component value with read-your-writes semantics: the entity
/// array value, overridden by the last delta already staged this tick for
/// the same `(index, path)`.
pub fn get_entity_value(entities: &Vec<Entity>, log: &TickLog, id: usize, path: &str) -> (r: Result<
    Value,
    ProtocolError,
>)
    ensures
        r == spec_get_value(entities@, log.deltas@, id as int, path@),
{
    let fp = match crate::delta::parse_path(path) {
        None => {
            return Err(ProtocolError::UnknownPath);
        },
        Some(fp) => fp,
    };
    if id >= entities.len() {
        return Err(ProtocolError::IndexOutOfRange);
    }
    let mut cur = base_read(&entities[id], fp);
    proof {
        assert(log.deltas@.skip(0) =~= log.deltas@);
    }
    let n = log.deltas.len();
    let mut k: usize = 0;
    while k < n
        invariant
            n == log.deltas@.len(),
            k <= n,
            spec_get_value(entities@, log.deltas@, id as int, path@) == spec_scan_staged(
                cur,
                log.deltas@.skip(k as int),
                id as int,
                path@,
                fp,
            ),
        decreases n - k,
    {
        let d = &log.deltas[k];
        proof {
            assert(log.deltas@.skip(k as int)[0] == log.deltas@[k as int]);
            assert(log.deltas@.skip(k as int).drop_first() =~= log.deltas@.skip(k as int + 1));
        }
        if d.index == id && path_matches(d.path.as_str(), path) {
            match staged_read(fp, d) {
                Ok(v) => {
                    cur = v;
                },
                Err(e) => {
                    return Err(e);
                },
            }
        }
        k = k + 1;
    }
    proof {
        assert(log.deltas@.skip(n as int) =~= Seq::<Delta>::empty());
    }
    Ok(cur)
}

/// Stages one creation request: claims the lowest-index tombstoned slot no
/// earlier creation call already claimed this tick, or records the
/// exhaustion sentinel `-1` when none is left.  The claim is only logged;
/// the slot is reset when the coordinator commits the log.
pub fn create_entity(log: &mut TickLog, entities: &Vec<Entity>) -> (r: i64)
    requires
        entities@.len() as int <= i64::MAX as int,
    ensures
        final(log).deltas@ == old(log).deltas@,
        final(log).creations@ == old(log).creations@.push(r),
        r == -1 || (0 <= r && (r as int) < entities@.len()),
        r != -1 ==> free_slot(entities@, old(log).creations@, r as int) && (forall|j: int|
            0 <= j < r as int ==> !free_slot(entities@, old(log).creations@, j)),
        r == -1 ==> (forall|j: int|
            0 <= j < entities@.len() ==> !free_slot(entities@, old(log).creations@, j)),
{
    let n = entities.len();
    let mut i: usize = 0;
    while i < n
        invariant
            n == entities@.len(),
            n as int <= i64::MAX as int,
            i <= n,
            *log == *old(log),
            forall|j: int| 0 <= j < i ==> !free_slot(entities@, old(log).creations@, j),
        decreases n - i,
    {
        if entities[i].deleted && !creation_claimed(&log.creations, i) {
            log.creations.push(i as i64);
            return i as i64;
        }
        i = i + 1;
    }
    log.creations.push(-1);
    -1
}

/// Whether an earlier creation call this tick already claimed slot `idx`.
fn creation_claimed(creations: &Vec<i64>, idx: usize) -> (r: bool)
    requires
        idx as int <= i64::MAX as int,
    ensures
        r == spec_claimed_upto(creations@, creations@.len() as int, idx as int),
{
    let target = idx as i64;
    let n = creations.len();
    let mut m: usize = 0;
    while m < n
        invariant
            n == creations@.len(),
            m <= n,
            target as int == idx as int,
            forall|mm: int| 0 <= mm < m ==> creations@[mm] as int != idx as int,
        decreases n - m,
    {
        if creations[m] == target {
            return true;
        }
        m = m + 1;
    }
    false
}

/// Reads the base value of one path off one entity.
fn base_read(e: &Entity, fp: FieldPath) -> (r: Value)
    ensures
        r == base_read_value(*e, fp),
{
    match fp {
        FieldPath::SpritePos => Value::Vec2(e.sprite.pos.x, e.sprite.pos.y),
        FieldPath::SpriteSize => Value::Vec2(e.sprite.size.x, e.sprite.size.y),
        FieldPath::SpriteOffset => Value::Vec2(e.sprite.offset.x, e.sprite.offset.y),
        FieldPath::SpriteScale => Value::Vec2(e.sprite.scale.x, e.sprite.scale.y),
        FieldPath::HitboxPos => Value::Vec2(e.hitbox.pos.x, e.hitbox.pos.y),
        FieldPath::HitboxSize => Value::Vec2(e.hitbox.size.x, e.hitbox.size.y),
        FieldPath::HitboxMass => Value::Num(e.hitbox.mass),
        FieldPath::HitboxSimulate => Value::Bool(e.hitbox.simulate == 1),
        FieldPath::Data => Value::Str(e.data.clone()),
        FieldPath::Deleted => Value::Bool(e.deleted),
    }
}

/// Converts one staged delta into the value a read of its path returns.
fn staged_read(fp: FieldPath, d: &Delta) -> (r: Result<Value, ProtocolError>)
    ensures
        staged_write_ok(fp, d.value, d.value2) ==> r == Ok::<Value, ProtocolError>(
            staged_read_value(fp, *d),
        ),
        !staged_write_ok(fp, d.value, d.value2) ==> r == Err::<Value, ProtocolError>(
            ProtocolError::TypeMismatch,
        ),
{
    match fp {
        FieldPath::SpritePos => staged_read_vec2(d),
        FieldPath::SpriteSize => staged_read_vec2(d),
        FieldPath::SpriteOffset => staged_read_vec2(d),
        FieldPath::SpriteScale => staged_read_vec2(d),
        FieldPath::HitboxPos => staged_read_vec2(d),
        FieldPath::HitboxSize => staged_read_vec2(d),
        FieldPath::HitboxMass => match &d.value {
            Value::Num(a) => Ok(Value::Num(*a)),
            _ => Err(ProtocolError::TypeMismatch),
        },
        FieldPath::HitboxSimulate => match &d.value {
            Value::Bool(b) => Ok(Value::Bool(*b)),
            _ => Err(ProtocolError::TypeMismatch),
        },
        FieldPath::Data => match &d.value {
            Value::Str(s) => Ok(Value::Str(s.clone())),
            _ => Err(ProtocolError::TypeMismatch),
        },
        FieldPath::Deleted => match &d.value {
            Value::Bool(b) => Ok(Value::Bool(*b)),
            _ => Err(ProtocolError::TypeMismatch),
        },
    }
}

/// Converts a staged two-scalar delta into the vector value a read returns.
fn staged_read_vec2(d: &Delta) -> (r: Result<Value, ProtocolError>)
    ensures
        (d.value is Num && d.value2 is Num) ==> r == Ok::<Value, ProtocolError>(
            Value::Vec2(num_of(d.value), num_of(d.value2)),
        ),
        !(d.value is Num && d.value2 is Num) ==> r == Err::<Value, ProtocolError>(
            ProtocolError::TypeMismatch,
        ),
{
    match (&d.value, &d.value2) {
        (Value::Num(a), Value::Num(b)) => Ok(Value::Vec2(*a, *b)),
        _ => Err(ProtocolError::TypeMismatch),
    }
}

} // verus!
