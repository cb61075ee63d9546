//! Deltas: staged field mutations, the closed set of field paths they may
//! target, and the specification of how a delta is checked and applied.

use vstd::prelude::*;

use crate::entity::{Entity, Hitbox, Sprite, Vec2Bits};

verus! {

/// A protocol failure.  Every one of these is fatal to the tick that
/// produced it: the coordinator aborts rather than recover partially.
#[derive(Clone, Copy, Debug, PartialEq, Eq, Structural)]
pub enum ProtocolError {
    /// A field path outside the closed path set.
    UnknownPath,
    /// An entity index at or past the end of the fixed-size entity array.
    IndexOutOfRange,
    /// A staged value whose variant does not fit the targeted field.
    TypeMismatch,
    /// A creation record carrying the exhaustion sentinel: no tombstoned
    /// slot was left to reuse.
    Exhausted,
}

/// The closed set of entity fields a script can address.
#[derive(Clone, Copy, Debug, PartialEq, Eq, Structural)]
pub enum FieldPath {
    SpritePos,
    SpriteSize,
    SpriteOffset,
    SpriteScale,
    HitboxPos,
    HitboxSize,
    HitboxMass,
    HitboxSimulate,
    Data,
    Deleted,
}

/// A dynamically typed value at the script boundary.  `Num` carries the
/// bit pattern of an IEEE-754 single-precision number.
#[derive(Clone, Debug)]
pub enum Value {
    Num(u32),
    Bool(bool),
    Str(String),
    Vec2(u32, u32),
    Nil,
}

impl PartialEq for Value {
    fn eq(&self, other: &Value) -> (r: bool)
        ensures
            r == self.matches_value(other),
    {
        match (self, other) {
            (Value::Num(a), Value::Num(b)) => *a == *b,
            (Value::Bool(a), Value::Bool(b)) => *a == *b,
            (Value::Str(a), Value::Str(b)) => *a == *b,
            (Value::Vec2(ax, ay), Value::Vec2(bx, by)) => *ax == *bx && *ay == *by,
            (Value::Nil, Value::Nil) => true,
            _ => false,
        }
    }
}

impl vstd::std_specs::cmp::PartialEqSpecImpl for Value {
    open spec fn obeys_eq_spec() -> bool {
        true
    }

    open spec fn eq_spec(&self, other: &Value) -> bool {
        self.matches_value(other)
    }
}

impl Value {
    /// Equality up to observation: strings compare by their contents.
    pub open spec fn matches_value(&self, other: &Value) -> bool {
        match (self, other) {
            (Value::Num(a), Value::Num(b)) => a == b,
            (Value::Bool(a), Value::Bool(b)) => a == b,
            (Value::Str(a), Value::Str(b)) => a@ == b@,
            (Value::Vec2(ax, ay), Value::Vec2(bx, by)) => ax == bx && ay == by,
            (Value::Nil, Value::Nil) => true,
            _ => false,
        }
    }
}

/// One staged mutation: entity index, raw field path, staged value, and a
/// second scalar for the two-component fields (defaulted when absent).
#[derive(Clone, Debug)]
pub struct Delta {
    pub index: usize,
    pub path: String,
    pub value: Value,
    pub value2: Value,
}

/// The per-tick logs: staged deltas and staged creation requests.  A tick
/// starts with fresh, empty logs — nothing carries over from the last tick,
/// so nothing is ever applied twice.  A creation entry is a claimed slot
/// index, or `-1` when the slot pool was exhausted at the time of the call.
#[derive(Clone, Debug)]
pub struct TickLog {
    pub deltas: Vec<Delta>,
    pub creations: Vec<i64>,
}

impl TickLog {
    /// Empty logs for the start of a tick.
    pub fn new() -> (r: TickLog)
        ensures
            r.deltas@ == Seq::<Delta>::empty(),
            r.creations@ == Seq::<i64>::empty(),
    {
        TickLog { deltas: Vec::new(), creations: Vec::new() }
    }
}

pub open spec fn spec_parse_path(s: Seq<char>) -> Option<FieldPath> {
    if s == "sprite.pos"@ {
        Some(FieldPath::SpritePos)
    } else if s == "sprite.size"@ {
        Some(FieldPath::SpriteSize)
    } else if s == "sprite.offset"@ {
        Some(FieldPath::SpriteOffset)
    } else if s == "sprite.scale"@ {
        Some(FieldPath::SpriteScale)
    } else if s == "hitbox.pos"@ {
        Some(FieldPath::HitboxPos)
    } else if s == "hitbox.size"@ {
        Some(FieldPath::HitboxSize)
    } else if s == "hitbox.mass"@ {
        Some(FieldPath::HitboxMass)
    } else if s == "hitbox.simulate"@ {
        Some(FieldPath::HitboxSimulate)
    } else if s == "data"@ {
        Some(FieldPath::Data)
    } else if s == "deleted"@ {
        Some(FieldPath::Deleted)
    } else {
        None
    }
}

/// Whether two path strings are the same path.
pub(crate) fn path_matches(path: &str, lit: &str) -> (r: bool)
    ensures
        r == (path@ == lit@),
{
    let a: String = path.to_owned();
    let b: String = lit.to_owned();
    a == b
}

/// Maps a raw path string into the closed field-path set; `None` outside it.
pub fn parse_path(path: &str) -> (r: Option<FieldPath>)
    ensures
        r == spec_parse_path(path@),
{
    if path_matches(path, "sprite.pos") {
        Some(FieldPath::SpritePos)
    } else if path_matches(path, "sprite.size") {
        Some(FieldPath::SpriteSize)
    } else if path_matches(path, "sprite.offset") {
        Some(FieldPath::SpriteOffset)
    } else if path_matches(path, "sprite.scale") {
        Some(FieldPath::SpriteScale)
    } else if path_matches(path, "hitbox.pos") {
        Some(FieldPath::HitboxPos)
    } else if path_matches(path, "hitbox.size") {
        Some(FieldPath::HitboxSize)
    } else if path_matches(path, "hitbox.mass") {
        Some(FieldPath::HitboxMass)
    } else if path_matches(path, "hitbox.simulate") {
        Some(FieldPath::HitboxSimulate)
    } else if path_matches(path, "data") {
        Some(FieldPath::Data)
    } else if path_matches(path, "deleted") {
        Some(FieldPath::Deleted)
    } else {
        None
    }
}

pub open spec fn num_of(v: Value) -> u32
    recommends
        v is Num,
{
    match v {
        Value::Num(b) => b,
        _ => vstd::pervasive::arbitrary(),
    }
}

pub open spec fn bool_of(v: Value) -> bool
    recommends
        v is Bool,
{
    match v {
        Value::Bool(b) => b,
        _ => vstd::pervasive::arbitrary(),
    }
}

pub open spec fn str_of(v: Value) -> String
    recommends
        v is Str,
{
    match v {
        Value::Str(s) => s,
        _ => vstd::pervasive::arbitrary(),
    }
}

/// Whether a staged `(value, value2)` pair fits the targeted field: the
/// two-component fields take two numbers, `hitbox.mass` one number, the
/// flags a boolean, `data` a string.
pub open spec fn staged_write_ok(fp: FieldPath, v1: Value, v2: Value) -> bool {
    match fp {
        FieldPath::SpritePos => v1 is Num && v2 is Num,
        FieldPath::SpriteSize => v1 is Num && v2 is Num,
        FieldPath::SpriteOffset => v1 is Num && v2 is Num,
        FieldPath::SpriteScale => v1 is Num && v2 is Num,
        FieldPath::HitboxPos => v1 is Num && v2 is Num,
        FieldPath::HitboxSize => v1 is Num && v2 is Num,
        FieldPath::HitboxMass => v1 is Num,
        FieldPath::HitboxSimulate => v1 is Bool,
        FieldPath::Data => v1 is Str,
        FieldPath::Deleted => v1 is Bool,
    }
}

/// The entity after writing a staged value through one field path.
/// Booleans coerce to 0/1 where the field is boolean-as-int.  Writing
/// `deleted` writes through to both component flags, and deleting also
/// clears `simulate` so the entity drops out of the physics dispatch.
pub open spec fn write_field_spec(e: Entity, fp: FieldPath, v1: Value, v2: Value) -> Entity
    recommends
        staged_write_ok(fp, v1, v2),
{
    match fp {
        FieldPath::SpritePos => Entity {
            sprite: Sprite { pos: Vec2Bits { x: num_of(v1), y: num_of(v2) }, ..e.sprite },
            ..e
        },
        FieldPath::SpriteSize => Entity {
            sprite: Sprite { size: Vec2Bits { x: num_of(v1), y: num_of(v2) }, ..e.sprite },
            ..e
        },
        FieldPath::SpriteOffset => Entity {
            sprite: Sprite { offset: Vec2Bits { x: num_of(v1), y: num_of(v2) }, ..e.sprite },
            ..e
        },
        FieldPath::SpriteScale => Entity {
            sprite: Sprite { scale: Vec2Bits { x: num_of(v1), y: num_of(v2) }, ..e.sprite },
            ..e
        },
        FieldPath::HitboxPos => Entity {
            hitbox: Hitbox { pos: Vec2Bits { x: num_of(v1), y: num_of(v2) }, ..e.hitbox },
            ..e
        },
        FieldPath::HitboxSize => Entity {
            hitbox: Hitbox { size: Vec2Bits { x: num_of(v1), y: num_of(v2) }, ..e.hitbox },
            ..e
        },
        FieldPath::HitboxMass => Entity { hitbox: Hitbox { mass: num_of(v1), ..e.hitbox }, ..e },
        FieldPath::HitboxSimulate => Entity {
            hitbox: Hitbox { simulate: if bool_of(v1) { 1 } else { 0 }, ..e.hitbox },
            ..e
        },
        FieldPath::Data => Entity { data: str_of(v1), ..e },
        FieldPath::Deleted => Entity {
            deleted: bool_of(v1),
            sprite: Sprite { deleted: if bool_of(v1) { 1 } else { 0 }, ..e.sprite },
            hitbox: Hitbox {
                deleted: if bool_of(v1) { 1 } else { 0 },
                simulate: if bool_of(v1) { 0 } else { e.hitbox.simulate },
                ..e.hitbox
            },
            ..e
        },
    }
}

/// The first protocol failure one delta would hit against an array of the
/// given length, checked in the order the coordinator checks them:
/// path, staged types, index.
pub open spec fn spec_check_delta(len: nat, d: Delta) -> Option<ProtocolError> {
    match spec_parse_path(d.path@) {
        None => Some(ProtocolError::UnknownPath),
        Some(fp) => if !staged_write_ok(fp, d.value, d.value2) {
            Some(ProtocolError::TypeMismatch)
        } else if d.index >= len {
            Some(ProtocolError::IndexOutOfRange)
        } else {
            None
        },
    }
}

/// The entity array after applying one valid delta.
pub open spec fn spec_apply_delta(es: Seq<Entity>, d: Delta) -> Seq<Entity>
    recommends
        spec_check_delta(es.len(), d) is None,
{
    match spec_parse_path(d.path@) {
        Some(fp) => es.update(
            d.index as int,
            write_field_spec(es[d.index as int], fp, d.value, d.value2),
        ),
        None => es,
    }
}

/// Applies deltas in accumulation order until the log is drained or a
/// delta fails its check; returns the array reached and the failure, if
/// any.  A failure stops the walk with the array as it stood.
pub open spec fn spec_apply_deltas(es: Seq<Entity>, ds: Seq<Delta>) -> (Seq<Entity>, Option<
    ProtocolError,
>)
    decreases ds.len(),
{
    if ds.len() == 0 {
        (es, None)
    } else {
        match spec_check_delta(es.len(), ds[0]) {
            Some(err) => (es, Some(err)),
            None => spec_apply_deltas(spec_apply_delta(es, ds[0]), ds.drop_first()),
        }
    }
}

} // verus!
