//! Direct operations on the canonical entity array: bounds-checked reads,
//! write-through of one staged value, and immediate slot reuse.

use vstd::prelude::*;

use crate::delta::{
    spec_parse_path, staged_write_ok, write_field_spec, FieldPath, ProtocolError, Value,
};
use crate::entity::{fresh_entity, is_fresh_entity, Entity, Vec2Bits};

verus! {

/// Reads the entity at `index`; the array never grows on a read, so an
/// index at or past the end is a protocol failure.
pub fn get(entities: &Vec<Entity>, index: usize) -> (r: Result<&Entity, ProtocolError>)
    ensures
        index < entities@.len() ==> (r matches Ok(e) && *e == entities@[index as int]),
        index >= entities@.len() ==> r == Err::<&Entity, ProtocolError>(
            ProtocolError::IndexOutOfRange,
        ),
{
    if index < entities.len() {
        Ok(&entities[index])
    } else {
        Err(ProtocolError::IndexOutOfRange)
    }
}

/// Writes one staged value through a field path, coercing booleans to 0/1
/// where the field is boolean-as-int.  Checks, in this order: the path is
/// in the closed set, the staged variants fit the field, the index is in
/// range.  On failure the array is untouched.
pub fn set_field(
    entities: &mut Vec<Entity>,
    index: usize,
    path: &str,
    value: &Value,
    value2: &Value,
) -> (r: Result<(), ProtocolError>)
    ensures
        ({
            match spec_parse_path(path@) {
                None => r == Err::<(), ProtocolError>(ProtocolError::UnknownPath)
                    && *final(entities) == *old(entities),
                Some(fp) => if !staged_write_ok(fp, *value, *value2) {
                    r == Err::<(), ProtocolError>(ProtocolError::TypeMismatch)
                        && *final(entities) == *old(entities)
                } else if index >= old(entities)@.len() {
                    r == Err::<(), ProtocolError>(ProtocolError::IndexOutOfRange)
                        && *final(entities) == *old(entities)
                } else {
                    r == Ok::<(), ProtocolError>(()) && final(entities)@ == old(entities)@.update(
                        index as int,
                        write_field_spec(old(entities)@[index as int], fp, *value, *value2),
                    )
                },
            }
        }),
{
    let fp = match parse_path_or_err(path) {
        Ok(fp) => fp,
        Err(e) => {
            return Err(e);
        },
    };
    match fp {
        FieldPath::SpritePos => {
            let (x, y) = match (value, value2) {
                (Value::Num(a), Value::Num(b)) => (*a, *b),
                _ => {
                    return Err(ProtocolError::TypeMismatch);
                },
            };
            if index >= entities.len() {
                return Err(ProtocolError::IndexOutOfRange);
            }
            let e = &mut entities[index];
            e.sprite.pos = Vec2Bits { x, y };
            Ok(())
        },
        FieldPath::SpriteSize => {
            let (x, y) = match (value, value2) {
                (Value::Num(a), Value::Num(b)) => (*a, *b),
                _ => {
                    return Err(ProtocolError::TypeMismatch);
                },
            };
            if index >= entities.len() {
                return Err(ProtocolError::IndexOutOfRange);
            }
            let e = &mut entities[index];
            e.sprite.size = Vec2Bits { x, y };
            Ok(())
        },
        FieldPath::SpriteOffset => {
            let (x, y) = match (value, value2) {
                (Value::Num(a), Value::Num(b)) => (*a, *b),
                _ => {
                    return Err(ProtocolError::TypeMismatch);
                },
            };
            if index >= entities.len() {
                return Err(ProtocolError::IndexOutOfRange);
            }
            let e = &mut entities[index];
            e.sprite.offset = Vec2Bits { x, y };
            Ok(())
        },
        FieldPath::SpriteScale => {
            let (x, y) = match (value, value2) {
                (Value::Num(a), Value::Num(b)) => (*a, *b),
                _ => {
                    return Err(ProtocolError::TypeMismatch);
                },
            };
            if index >= entities.len() {
                return Err(ProtocolError::IndexOutOfRange);
            }
            let e = &mut entities[index];
            e.sprite.scale = Vec2Bits { x, y };
            Ok(())
        },
        FieldPath::HitboxPos => {
            let (x, y) = match (value, value2) {
                (Value::Num(a), Value::Num(b)) => (*a, *b),
                _ => {
                    return Err(ProtocolError::TypeMismatch);
                },
            };
            if index >= entities.len() {
                return Err(ProtocolError::IndexOutOfRange);
            }
            let e = &mut entities[index];
            e.hitbox.pos = Vec2Bits { x, y };
            Ok(())
        },
        FieldPath::HitboxSize => {
            let (x, y) = match (value, value2) {
                (Value::Num(a), Value::Num(b)) => (*a, *b),
                _ => {
                    return Err(ProtocolError::TypeMismatch);
                },
            };
            if index >= entities.len() {
                return Err(ProtocolError::IndexOutOfRange);
            }
            let e = &mut entities[index];
            e.hitbox.size = Vec2Bits { x, y };
            Ok(())
        },
        FieldPath::HitboxMass => {
            let m = match value {
                Value::Num(a) => *a,
                _ => {
                    return Err(ProtocolError::TypeMismatch);
                },
            };
            if index >= entities.len() {
                return Err(ProtocolError::IndexOutOfRange);
            }
            let e = &mut entities[index];
            e.hitbox.mass = m;
            Ok(())
        },
        FieldPath::HitboxSimulate => {
            let b = match value {
                Value::Bool(a) => *a,
                _ => {
                    return Err(ProtocolError::TypeMismatch);
                },
            };
            if index >= entities.len() {
                return Err(ProtocolError::IndexOutOfRange);
            }
            let e = &mut entities[index];
            e.hitbox.simulate = if b {
                1
            } else {
                0
            };
            Ok(())
        },
        FieldPath::Data => {
            let s = match value {
                Value::Str(a) => a.clone(),
                _ => {
                    return Err(ProtocolError::TypeMismatch);
                },
            };
            if index >= entities.len() {
                return Err(ProtocolError::IndexOutOfRange);
            }
            let e = &mut entities[index];
            e.data = s;
            Ok(())
        },
        FieldPath::Deleted => {
            let b = match value {
                Value::Bool(a) => *a,
                _ => {
                    return Err(ProtocolError::TypeMismatch);
                },
            };
            if index >= entities.len() {
                return Err(ProtocolError::IndexOutOfRange);
            }
            let e = &mut entities[index];
            e.deleted = b;
            e.sprite.deleted = if b {
                1
            } else {
                0
            };
            e.hitbox.deleted = if b {
                1
            } else {
                0
            };
            if b {
                e.hitbox.simulate = 0;
            }
            Ok(())
        },
    }
}

/// `parse_path`, with the unknown-path protocol failure already attached.
fn parse_path_or_err(path: &str) -> (r: Result<FieldPath, ProtocolError>)
    ensures
        ({
            match spec_parse_path(path@) {
                Some(fp) => r == Ok::<FieldPath, ProtocolError>(fp),
                None => r == Err::<FieldPath, ProtocolError>(ProtocolError::UnknownPath),
            }
        }),
{
    match crate::delta::parse_path(path) {
        Some(fp) => Ok(fp),
        None => Err(ProtocolError::UnknownPath),
    }
}

/// Reuses the lowest-index tombstoned slot: resets it to a freshly created
/// entity and returns its index.  With no tombstone left the pool is
/// exhausted; capacity is fixed at world-init size, so nothing grows.
pub fn allocate(entities: &mut Vec<Entity>) -> (r: Result<usize, ProtocolError>)
    ensures
        final(entities)@.len() == old(entities)@.len(),
        match r {
            Ok(i) => {
                &&& i < old(entities)@.len()
                &&& old(entities)@[i as int].deleted
                &&& forall|j: int| 0 <= j < i ==> !old(entities)@[j].deleted
                &&& is_fresh_entity(final(entities)@[i as int])
                &&& forall|j: int|
                    0 <= j < old(entities)@.len() && j != i
                        ==> final(entities)@[j] == old(entities)@[j]
            },
            Err(pe) => {
                &&& pe == ProtocolError::Exhausted
                &&& forall|j: int| 0 <= j < old(entities)@.len() ==> !old(entities)@[j].deleted
                &&& *final(entities) == *old(entities)
            },
        },
{
    let n = entities.len();
    let mut i: usize = 0;
    while i < n
        invariant
            n == entities@.len(),
            i <= n,
            *entities == *old(entities),
            forall|j: int| 0 <= j < i ==> !entities@[j].deleted,
        decreases n - i,
    {
        if entities[i].deleted {
            let e = &mut entities[i];
            *e = fresh_entity();
            return Ok(i);
        }
        i = i + 1;
    }
    Err(ProtocolError::Exhausted)
}

} // verus!
