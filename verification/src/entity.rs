//! The entity component store: per-entity sprite, hitbox and payload fields.

use vstd::prelude::*;

verus! {

/// A two-component vector field.  Each component is the bit pattern of an
/// IEEE-754 single-precision number; the store never interprets it.
#[derive(Clone, Copy, Debug, PartialEq, Eq, Structural)]
pub struct Vec2Bits {
    pub x: u32,
    pub y: u32,
}

/// The render-facing half of an entity.  `deleted` is a boolean stored as
/// 0 or 1, the layout the GPU-side record uses.
#[derive(Clone, Copy, Debug, PartialEq, Eq, Structural)]
pub struct Sprite {
    pub pos: Vec2Bits,
    pub size: Vec2Bits,
    pub offset: Vec2Bits,
    pub scale: Vec2Bits,
    pub deleted: u32,
}

/// The physics-facing half of an entity.  Between syncs the GPU is
/// authoritative for these fields.  `simulate` and `deleted` are
/// booleans stored as integers, the layout the GPU-side record uses.
#[derive(Clone, Copy, Debug, PartialEq, Eq, Structural)]
pub struct Hitbox {
    pub pos: Vec2Bits,
    pub size: Vec2Bits,
    pub vel: Vec2Bits,
    pub mass: u32,
    pub simulate: u32,
    pub deleted: u32,
}

/// One slot of the entity array.  The slot index is the entity's identity;
/// `deleted` tombstones the slot without freeing it, so indices stay stable.
#[derive(Clone, Debug)]
pub struct Entity {
    pub sprite: Sprite,
    pub hitbox: Hitbox,
    pub data: String,
    pub deleted: bool,
}

pub open spec fn spec_zero_vec2() -> Vec2Bits {
    Vec2Bits { x: 0, y: 0 }
}

pub open spec fn spec_default_sprite() -> Sprite {
    Sprite {
        pos: spec_zero_vec2(),
        size: spec_zero_vec2(),
        offset: spec_zero_vec2(),
        scale: spec_zero_vec2(),
        deleted: 0,
    }
}

pub open spec fn spec_default_hitbox() -> Hitbox {
    Hitbox {
        pos: spec_zero_vec2(),
        size: spec_zero_vec2(),
        vel: spec_zero_vec2(),
        mass: 0,
        simulate: 0,
        deleted: 0,
    }
}

/// A default entity: zeroed components, empty payload, not deleted.
pub open spec fn is_default_entity(e: Entity) -> bool {
    &&& e.sprite == spec_default_sprite()
    &&& e.hitbox == spec_default_hitbox()
    &&& e.data@ == Seq::<char>::empty()
    &&& !e.deleted
}

/// A freshly created entity: default fields, with the payload tagged
/// `"clean"` so scripts can recognise a slot that was just reset.
pub open spec fn is_fresh_entity(e: Entity) -> bool {
    &&& e.sprite == spec_default_sprite()
    &&& e.hitbox == spec_default_hitbox()
    &&& e.data@ == "clean"@
    &&& !e.deleted
}

impl Default for Vec2Bits {
    fn default() -> (r: Vec2Bits)
        ensures
            r == spec_zero_vec2(),
    {
        Vec2Bits { x: 0, y: 0 }
    }
}

impl Default for Sprite {
    fn default() -> (r: Sprite)
        ensures
            r == spec_default_sprite(),
    {
        Sprite {
            pos: Vec2Bits { x: 0, y: 0 },
            size: Vec2Bits { x: 0, y: 0 },
            offset: Vec2Bits { x: 0, y: 0 },
            scale: Vec2Bits { x: 0, y: 0 },
            deleted: 0,
        }
    }
}

impl Default for Hitbox {
    fn default() -> (r: Hitbox)
        ensures
            r == spec_default_hitbox(),
    {
        Hitbox {
            pos: Vec2Bits { x: 0, y: 0 },
            size: Vec2Bits { x: 0, y: 0 },
            vel: Vec2Bits { x: 0, y: 0 },
            mass: 0,
            simulate: 0,
            deleted: 0,
        }
    }
}

impl Default for Entity {
    fn default() -> (r: Entity)
        ensures
            is_default_entity(r),
    {
        Entity {
            sprite: Sprite::default(),
            hitbox: Hitbox::default(),
            data: String::new(),
            deleted: false,
        }
    }
}

/// The entity a reused slot is reset to: default fields, payload `"clean"`.
pub fn fresh_entity() -> (r: Entity)
    ensures
        is_fresh_entity(r),
{
    Entity {
        sprite: Sprite::default(),
        hitbox: Hitbox::default(),
        data: "clean".to_owned(),
        deleted: false,
    }
}

} // verus!
