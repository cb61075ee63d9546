//! A 2D particle-simulation entity store with a scripted delta/patch protocol.
//!
//! Entities live in a fixed-size array whose indices are stable handles: a
//! deleted entity leaves a tombstone in its slot, and creation reuses the
//! lowest tombstoned slot.  During one tick a script stages mutations
//! ("deltas") and creation requests into per-tick logs; the host applies the
//! logs to the live entity array afterwards, in accumulation order, and then
//! mirrors the array into the GPU-facing sprite and hitbox buffers.
//!
//! Scalar component fields carry IEEE-754 single-precision bit patterns as
//! `u32`: the store only moves these values between slots and logs, it never
//! does arithmetic on them, so the bit pattern is the whole story.

pub mod bridge;
pub mod delta;
pub mod ecs;
pub mod entity;
pub mod laws;
pub mod store;
