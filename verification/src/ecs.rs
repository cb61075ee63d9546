//! The tick coordinator's state transitions: sync the entity array from the
//! GPU readback, apply the tick's staged deltas and creations in
//! accumulation order, and mirror the array back into the GPU-facing
//! buffers.

use vstd::prelude::*;

use crate::delta::{
    spec_apply_delta, spec_apply_deltas, spec_check_delta, Delta, ProtocolError, TickLog,
};
use crate::entity::{fresh_entity, is_fresh_entity, Entity, Hitbox, Sprite};
use crate::store::set_field;

verus! {

/// The entity array with every hitbox overwritten from the GPU readback.
/// The GPU is authoritative for physics-driven fields only; sprite and
/// payload fields keep their CPU values.
pub open spec fn spec_gpu_synced(es: Seq<Entity>, gpu: Seq<Hitbox>) -> Seq<Entity>
    recommends
        es.len() == gpu.len(),
{
    Seq::new(es.len(), |i: int| Entity { hitbox: gpu[i], ..es[i] })
}

/// The sprite halves of the entity array, in array order.
pub open spec fn spec_sprites_of(es: Seq<Entity>) -> Seq<Sprite> {
    Seq::new(es.len(), |i: int| es[i].sprite)
}

/// The hitbox halves of the entity array, in array order.
pub open spec fn spec_hitboxes_of(es: Seq<Entity>) -> Seq<Hitbox> {
    Seq::new(es.len(), |i: int| es[i].hitbox)
}

/// Whether one creation-log entry names a slot the array really has.
pub open spec fn creation_entry_ok(c: i64, len: nat) -> bool {
    0 <= c && (c as int) < len
}

/// How many creation-log entries are committed before the walk stops:
/// the position of the first entry that is `-1` or out of range, or the
/// log's length when every entry is a real slot.
pub open spec fn spec_creation_stop(cs: Seq<i64>, len: nat) -> int
    decreases cs.len(),
{
    if cs.len() == 0 {
        0
    } else if !creation_entry_ok(cs[0], len) {
        0
    } else {
        1 + spec_creation_stop(cs.drop_first(), len)
    }
}

/// Whether slot `j` is named by one of the first `upto` creation-log
/// entries.
pub open spec fn spec_claimed_upto(cs: Seq<i64>, upto: int, j: int) -> bool {
    exists|m: int| 0 <= m < upto && cs[m] as int == j
}

/// `spec_creation_stop` is the position of the first bad entry: everything
/// before it is a real slot, and the entry there (if any) is not.
pub proof fn lemma_creation_stop(cs: Seq<i64>, len: nat)
    ensures
        0 <= spec_creation_stop(cs, len) <= cs.len(),
        forall|m: int| 0 <= m < spec_creation_stop(cs, len) ==> creation_entry_ok(cs[m], len),
        spec_creation_stop(cs, len) < cs.len() ==> !creation_entry_ok(
            cs[spec_creation_stop(cs, len)],
            len,
        ),
    decreases cs.len(),
{
    if cs.len() > 0 && creation_entry_ok(cs[0], len) {
        lemma_creation_stop(cs.drop_first(), len);
        assert forall|m: int| 0 <= m < spec_creation_stop(cs, len) implies creation_entry_ok(
            cs[m],
            len,
        ) by {
            if m > 0 {
                assert(creation_entry_ok(cs.drop_first()[m - 1], len));
            }
        }
    }
}

/// Overwrites each entity's hitbox from the corresponding GPU slot.
/// Everything the GPU does not own — sprite, payload, tombstone — is kept.
pub fn regen_from_gpu(entities: &mut Vec<Entity>, gpu: &Vec<Hitbox>)
    requires
        old(entities)@.len() == gpu@.len(),
    ensures
        final(entities)@ == spec_gpu_synced(old(entities)@, gpu@),
{
    let n = entities.len();
    let mut i: usize = 0;
    while i < n
        invariant
            n == entities@.len(),
            n == gpu@.len(),
            n == old(entities)@.len(),
            i <= n,
            forall|j: int| 0 <= j < i ==> entities@[j] == spec_gpu_synced(old(entities)@, gpu@)[j],
            forall|j: int| i <= j < n ==> entities@[j] == old(entities)@[j],
        decreases n - i,
    {
        let hb = gpu[i];
        let e = &mut entities[i];
        e.hitbox = hb;
        i = i + 1;
    }
    assert(entities@ =~= spec_gpu_synced(old(entities)@, gpu@));
}

/// Writes the entity array's sprite and hitbox halves into the buffers the
/// renderer reads, in array order; the caller holds the buffers exclusively
/// for the duration, so no partial write is ever visible.
pub fn regen_from_cpu(
    entities: &Vec<Entity>,
    sprite_buffer: &mut Vec<Sprite>,
    hitbox_buffer: &mut Vec<Hitbox>,
)
    requires
        old(sprite_buffer)@.len() == entities@.len(),
        old(hitbox_buffer)@.len() == entities@.len(),
    ensures
        final(sprite_buffer)@ == spec_sprites_of(entities@),
        final(hitbox_buffer)@ == spec_hitboxes_of(entities@),
{
    let n = entities.len();
    let mut i: usize = 0;
    while i < n
        invariant
            n == entities@.len(),
            n == sprite_buffer@.len(),
            n == hitbox_buffer@.len(),
            i <= n,
            forall|j: int| 0 <= j < i ==> sprite_buffer@[j] == entities@[j].sprite,
            forall|j: int| 0 <= j < i ==> hitbox_buffer@[j] == entities@[j].hitbox,
        decreases n - i,
    {
        let s = &mut sprite_buffer[i];
        *s = entities[i].sprite;
        let h = &mut hitbox_buffer[i];
        *h = entities[i].hitbox;
        i = i + 1;
    }
    assert(sprite_buffer@ =~= spec_sprites_of(entities@));
    assert(hitbox_buffer@ =~= spec_hitboxes_of(entities@));
}

/// Applies the tick's delta log to the live entity array in accumulation
/// order; for one field staged several times, each write lands and the
/// last one is left standing.  The walk stops at the first delta that
/// fails its check, leaving the writes before it in place — a protocol
/// failure aborts the tick, so no recovery is attempted.
pub fn apply_deltas(entities: &mut Vec<Entity>, deltas: &Vec<Delta>) -> (r: Result<
    (),
    ProtocolError,
>)
    ensures
        final(entities)@.len() == old(entities)@.len(),
        final(entities)@ == spec_apply_deltas(old(entities)@, deltas@).0,
        ({
            match spec_apply_deltas(old(entities)@, deltas@).1 {
                None => r == Ok::<(), ProtocolError>(()),
                Some(err) => r == Err::<(), ProtocolError>(err),
            }
        }),
{
    proof {
        assert(deltas@.skip(0) =~= deltas@);
    }
    let n = deltas.len();
    let mut k: usize = 0;
    while k < n
        invariant
            n == deltas@.len(),
            k <= n,
            entities@.len() == old(entities)@.len(),
            spec_apply_deltas(old(entities)@, deltas@) == spec_apply_deltas(
                entities@,
                deltas@.skip(k as int),
            ),
        decreases n - k,
    {
        let d = &deltas[k];
        let ghost pre = entities@;
        let res = set_field(entities, d.index, d.path.as_str(), &d.value, &d.value2);
        proof {
            assert(deltas@.skip(k as int).len() > 0);
            assert(deltas@.skip(k as int)[0] == deltas@[k as int]);
            assert(deltas@.skip(k as int).drop_first() =~= deltas@.skip(k as int + 1));
        }
        match res {
            Ok(()) => {
                proof {
                    assert(spec_check_delta(pre.len(), deltas@[k as int]) is None);
                    assert(entities@ == spec_apply_delta(pre, deltas@[k as int]));
                }
            },
            Err(e) => {
                proof {
                    assert(spec_check_delta(pre.len(), deltas@[k as int]) == Some(e));
                    assert(spec_apply_deltas(pre, deltas@.skip(k as int)) == (pre, Some(e)));
                }
                return Err(e);
            },
        }
        k = k + 1;
    }
    proof {
        assert(deltas@.skip(n as int) =~= Seq::<Delta>::empty());
    }
    Ok(())
}

/// Commits the tick's creation log in order: each entry resets its claimed
/// slot to a freshly created entity.  A `-1` entry means the slot pool was
/// already exhausted when the creation was staged — fatal, the world was
/// sized too small for demand — and an entry outside the array is equally
/// fatal.  The walk stops at the first bad entry.
pub fn apply_creations(entities: &mut Vec<Entity>, creations: &Vec<i64>) -> (r: Result<
    (),
    ProtocolError,
>)
    ensures
        final(entities)@.len() == old(entities)@.len(),
        ({
            let len = old(entities)@.len();
            let stop = spec_creation_stop(creations@, len);
            &&& forall|j: int|
                0 <= j < len ==> (if spec_claimed_upto(creations@, stop, j) {
                    is_fresh_entity(final(entities)@[j])
                } else {
                    final(entities)@[j] == old(entities)@[j]
                })
            &&& (stop == creations@.len() ==> r == Ok::<(), ProtocolError>(()))
            &&& (stop < creations@.len() ==> r == Err::<(), ProtocolError>(
                if creations@[stop] == -1 {
                    ProtocolError::Exhausted
                } else {
                    ProtocolError::IndexOutOfRange
                },
            ))
        }),
{
    proof {
        lemma_creation_stop(creations@, old(entities)@.len());
    }
    let ghost len = old(entities)@.len();
    let ghost stop = spec_creation_stop(creations@, len);
    let n = creations.len();
    let mut k: usize = 0;
    while k < n
        invariant
            n == creations@.len(),
            k <= n,
            entities@.len() == old(entities)@.len(),
            len == old(entities)@.len(),
            stop == spec_creation_stop(creations@, len),
            0 <= stop <= n,
            forall|m: int| 0 <= m < stop ==> creation_entry_ok(creations@[m], len),
            stop < n ==> !creation_entry_ok(creations@[stop as int], len),
            k <= stop,
            forall|j: int|
                0 <= j < len ==> (if spec_claimed_upto(creations@, k as int, j) {
                    is_fresh_entity(entities@[j])
                } else {
                    entities@[j] == old(entities)@[j]
                }),
        decreases n - k,
    {
        let c = creations[k];
        if c == -1 {
            assert(stop == k);
            return Err(ProtocolError::Exhausted);
        }
        if c < 0 {
            assert(stop == k);
            return Err(ProtocolError::IndexOutOfRange);
        }
        if c as u64 >= entities.len() as u64 {
            assert(stop == k);
            return Err(ProtocolError::IndexOutOfRange);
        }
        let idx = c as u64 as usize;
        let e = &mut entities[idx];
        *e = fresh_entity();
        proof {
            assert(creation_entry_ok(creations@[k as int], len));
            assert(stop > k);
            assert forall|j: int| 0 <= j < len implies (if spec_claimed_upto(
                creations@,
                k as int + 1,
                j,
            ) {
                is_fresh_entity(entities@[j])
            } else {
                entities@[j] == old(entities)@[j]
            }) by {
                if spec_claimed_upto(creations@, k as int + 1, j) {
                    if j == idx as int {
                    } else {
                        assert(spec_claimed_upto(creations@, k as int, j));
                    }
                }
            }
        }
        k = k + 1;
    }
    Ok(())
}

/// One tick's full state transition, given the GPU hitbox readback and the
/// logs the script staged: sync hitboxes in from the GPU, apply the deltas
/// in accumulation order, commit the creations, and mirror the result into
/// the render-facing sprite and hitbox buffers.  On a protocol failure the
/// walk stops where it stood and the render buffers are left untouched.
pub fn regenerate(
    entities: &mut Vec<Entity>,
    gpu: &Vec<Hitbox>,
    log: &TickLog,
    sprite_buffer: &mut Vec<Sprite>,
    hitbox_buffer: &mut Vec<Hitbox>,
) -> (r: Result<(), ProtocolError>)
    requires
        gpu@.len() == old(entities)@.len(),
        old(sprite_buffer)@.len() == old(entities)@.len(),
        old(hitbox_buffer)@.len() == old(entities)@.len(),
    ensures
        final(entities)@.len() == old(entities)@.len(),
        ({
            let e1 = spec_gpu_synced(old(entities)@, gpu@);
            let ad = spec_apply_deltas(e1, log.deltas@);
            match ad.1 {
                Some(err) => {
                    &&& r == Err::<(), ProtocolError>(err)
                    &&& final(entities)@ == ad.0
                    &&& *final(sprite_buffer) == *old(sprite_buffer)
                    &&& *final(hitbox_buffer) == *old(hitbox_buffer)
                },
                None => {
                    let stop = spec_creation_stop(log.creations@, ad.0.len());
                    &&& forall|j: int|
                        0 <= j < ad.0.len() ==> (if spec_claimed_upto(log.creations@, stop, j) {
                            is_fresh_entity(final(entities)@[j])
                        } else {
                            final(entities)@[j] == ad.0[j]
                        })
                    &&& (stop == log.creations@.len() ==> {
                        &&& r == Ok::<(), ProtocolError>(())
                        &&& final(sprite_buffer)@ == spec_sprites_of(final(entities)@)
                        &&& final(hitbox_buffer)@ == spec_hitboxes_of(final(entities)@)
                    })
                    &&& (stop < log.creations@.len() ==> {
                        &&& r == Err::<(), ProtocolError>(
                            if log.creations@[stop] == -1 {
                                ProtocolError::Exhausted
                            } else {
                                ProtocolError::IndexOutOfRange
                            },
                        )
                        &&& *final(sprite_buffer) == *old(sprite_buffer)
                        &&& *final(hitbox_buffer) == *old(hitbox_buffer)
                    })
                },
            }
        }),
{
    regen_from_gpu(entities, gpu);
    match apply_deltas(entities, &log.deltas) {
        Ok(()) => {},
        Err(e) => {
            return Err(e);
        },
    }
    match apply_creations(entities, &log.creations) {
        Ok(()) => {},
        Err(e) => {
            return Err(e);
        },
    }
    regen_from_cpu(entities, sprite_buffer, hitbox_buffer);
    Ok(())
}

} // verus!
