//! The protocol's general laws, stated over the same specification
//! functions the executable contracts use, and proved once for all inputs.

use vstd::prelude::*;

use crate::bridge::{
    base_read_value, spec_get_value, spec_live_indices, spec_scan_staged, staged_read_value,
};
use crate::delta::{
    bool_of, spec_apply_delta, spec_apply_deltas, spec_check_delta, spec_parse_path,
    staged_write_ok, write_field_spec, Delta, FieldPath, ProtocolError, Value,
};
use crate::ecs::spec_gpu_synced;
use crate::entity::{Entity, Hitbox};

verus! {

/// Whether a delta targets the queried entity index and raw path string.
pub open spec fn matches_key(d: Delta, id: int, path: Seq<char>) -> bool {
    d.index as int == id && d.path@ == path
}

/// A GPU sync never touches a sprite, payload or tombstone field: only the
/// hitbox is overwritten.  So a sprite value committed by a delta survives
/// any number of GPU syncs unchanged.
pub proof fn lemma_gpu_sync_preserves_sprite(es: Seq<Entity>, gpu: Seq<Hitbox>, i: int)
    requires
        es.len() == gpu.len(),
        0 <= i < es.len(),
    ensures
        spec_gpu_synced(es, gpu)[i].sprite == es[i].sprite,
        spec_gpu_synced(es, gpu)[i].data == es[i].data,
        spec_gpu_synced(es, gpu)[i].deleted == es[i].deleted,
        spec_gpu_synced(es, gpu)[i].hitbox == gpu[i],
{
}

/// A tombstoned entity is never enumerated, and a live one always is:
/// `GetEntities` hands out exactly the non-deleted slot indices.
pub proof fn lemma_live_indices_membership(es: Seq<Entity>, n: int, j: int)
    requires
        0 <= j < n <= es.len(),
        n <= usize::MAX as int,
    ensures
        spec_live_indices(es, n).contains(j as usize) <==> !es[j].deleted,
    decreases n,
{
    let s = spec_live_indices(es, n);
    let pre = spec_live_indices(es, n - 1);
    lemma_live_indices_range(es, n - 1);
    if j == n - 1 {
        if !es[j].deleted {
            assert(s[s.len() - 1] == (j as usize));
            assert(s.contains(j as usize));
        } else {
            if s.contains(j as usize) {
                let w = choose|w: int| 0 <= w < pre.len() && pre[w] == (j as usize);
                assert((pre[w] as int) < n - 1);
                assert(false);
            }
        }
    } else {
        lemma_live_indices_membership(es, n - 1, j);
        if !es[n - 1].deleted {
            if !es[j].deleted {
                let w = choose|w: int| 0 <= w < pre.len() && pre[w] == (j as usize);
                assert(s[w] == (j as usize));
                assert(s.contains(j as usize));
            } else {
                if s.contains(j as usize) {
                    let w = choose|w: int| 0 <= w < s.len() && s[w] == (j as usize);
                    if w == s.len() - 1 {
                        assert((s[w] as int) == n - 1);
                        assert(false);
                    } else {
                        assert(pre[w] == (j as usize));
                        assert(pre.contains(j as usize));
                        assert(false);
                    }
                }
            }
        }
    }
}

/// Every index the enumeration hands out is below `n`.
pub proof fn lemma_live_indices_range(es: Seq<Entity>, n: int)
    requires
        n <= es.len(),
        n <= usize::MAX as int,
    ensures
        forall|w: int|
            0 <= w < spec_live_indices(es, n).len() ==> (spec_live_indices(es, n)[w] as int) < n,
    decreases n,
{
    if n > 0 {
        lemma_live_indices_range(es, n - 1);
        let s = spec_live_indices(es, n);
        let pre = spec_live_indices(es, n - 1);
        assert forall|w: int| 0 <= w < s.len() implies (s[w] as int) < n by {
            if !es[n - 1].deleted {
                if w < s.len() - 1 {
                    assert(s[w] == pre[w]);
                }
            }
        }
    }
}

/// Committing a delta that tombstones an entity also clears its `simulate`
/// flag and writes both component tombstones, so the entity drops out of
/// the physics dispatch and out of the script's enumeration.
pub proof fn lemma_delete_clears_simulate(es: Seq<Entity>, d: Delta)
    requires
        es.len() <= usize::MAX as int,
        spec_check_delta(es.len(), d) is None,
        spec_parse_path(d.path@) == Some(FieldPath::Deleted),
        bool_of(d.value),
    ensures
        spec_apply_delta(es, d)[d.index as int].deleted,
        spec_apply_delta(es, d)[d.index as int].hitbox.simulate == 0,
        spec_apply_delta(es, d)[d.index as int].hitbox.deleted == 1,
        spec_apply_delta(es, d)[d.index as int].sprite.deleted == 1,
        !spec_live_indices(spec_apply_delta(es, d), es.len() as int).contains(d.index),
{
    let es2 = spec_apply_delta(es, d);
    assert(es2.len() == es.len());
    lemma_live_indices_membership(es2, es.len() as int, d.index as int);
}

/// The position of the last delta in `ds` that matches `(id, path)`, or
/// `-1` when none does.
pub open spec fn last_match(ds: Seq<Delta>, id: int, path: Seq<char>) -> int
    decreases ds.len(),
{
    if ds.len() == 0 {
        -1
    } else if matches_key(ds[ds.len() - 1], id, path) {
        ds.len() - 1
    } else {
        last_match(ds.drop_last(), id, path)
    }
}

/// `last_match` points at a matching delta with nothing matching after it,
/// or reports that nothing matches at all.
pub proof fn lemma_last_match(ds: Seq<Delta>, id: int, path: Seq<char>)
    ensures
        -1 <= last_match(ds, id, path) < ds.len(),
        last_match(ds, id, path) >= 0 ==> matches_key(ds[last_match(ds, id, path)], id, path),
        forall|m: int| last_match(ds, id, path) < m < ds.len() ==> !matches_key(ds[m], id, path),
        last_match(ds, id, path) == -1 ==> (forall|m: int|
            0 <= m < ds.len() ==> !matches_key(ds[m], id, path)),
    decreases ds.len(),
{
    if ds.len() > 0 && !matches_key(ds[ds.len() - 1], id, path) {
        lemma_last_match(ds.drop_last(), id, path);
        assert forall|m: int| last_match(ds, id, path) < m < ds.len() implies !matches_key(
            ds[m],
            id,
            path,
        ) by {
            if m < ds.len() - 1 {
                assert(ds.drop_last()[m] == ds[m]);
            }
        }
    }
}

/// Read-your-writes: when at least one delta staged this tick matches the
/// queried `(index, path)` and every matching delta carries values that fit
/// the field, the read returns the staged value of the last matching delta
/// — not the pre-tick component value.
pub proof fn lemma_read_your_writes(es: Seq<Entity>, ds: Seq<Delta>, id: int, path: Seq<char>)
    requires
        spec_parse_path(path) is Some,
        0 <= id < es.len(),
        last_match(ds, id, path) >= 0,
        forall|m: int|
            0 <= m < ds.len() && matches_key(ds[m], id, path) ==> staged_write_ok(
                spec_parse_path(path)->Some_0,
                ds[m].value,
                ds[m].value2,
            ),
    ensures
        spec_get_value(es, ds, id, path) == Ok::<_, ProtocolError>(
            staged_read_value(spec_parse_path(path)->Some_0, ds[last_match(ds, id, path)]),
        ),
{
    let fp = spec_parse_path(path)->Some_0;
    lemma_scan_last_wins(base_read_value(es[id], fp), ds, id, path, fp);
}

/// Over the staged-delta scan, the last matching, well-typed delta wins.
proof fn lemma_scan_last_wins(
    cur: crate::delta::Value,
    ds: Seq<Delta>,
    id: int,
    path: Seq<char>,
    fp: FieldPath,
)
    requires
        last_match(ds, id, path) >= 0,
        forall|m: int|
            0 <= m < ds.len() && matches_key(ds[m], id, path) ==> staged_write_ok(
                fp,
                ds[m].value,
                ds[m].value2,
            ),
    ensures
        spec_scan_staged(cur, ds, id, path, fp) == Ok::<_, ProtocolError>(
            staged_read_value(fp, ds[last_match(ds, id, path)]),
        ),
    decreases ds.len(),
{
    lemma_last_match(ds, id, path);
    let d = ds[0];
    let rest = ds.drop_first();
    lemma_last_match(rest, id, path);
    assert forall|m: int|
        0 <= m < rest.len() && matches_key(rest[m], id, path) implies staged_write_ok(
        fp,
        rest[m].value,
        rest[m].value2,
    ) by {
        assert(rest[m] == ds[m + 1]);
    }
    if last_match(rest, id, path) >= 0 {
        let lm = last_match(rest, id, path);
        assert(rest[lm] == ds[lm + 1]);
        assert(matches_key(ds[lm + 1], id, path));
        assert(last_match(ds, id, path) == lm + 1) by {
            assert(forall|m: int| lm + 1 < m < ds.len() ==> !matches_key(ds[m], id, path))
                by {
                assert forall|m: int| lm + 1 < m < ds.len() implies !matches_key(
                    ds[m],
                    id,
                    path,
                ) by {
                    assert(ds[m] == rest[m - 1]);
                }
            }
            lemma_last_match_unique(ds, id, path, lm + 1);
        }
        if matches_key(d, id, path) {
            lemma_scan_last_wins(staged_read_value(fp, d), rest, id, path, fp);
        } else {
            lemma_scan_last_wins(cur, rest, id, path, fp);
        }
    } else {
        // nothing in the tail matches, so the head must be the match
        assert(matches_key(d, id, path)) by {
            if !matches_key(d, id, path) {
                let lm = last_match(ds, id, path);
                assert(matches_key(ds[lm], id, path));
                assert(lm >= 1);
                assert(rest[lm - 1] == ds[lm]);
                assert(false);
            }
        }
        assert(last_match(ds, id, path) == 0) by {
            assert forall|m: int| 0 < m < ds.len() implies !matches_key(ds[m], id, path) by {
                assert(ds[m] == rest[m - 1]);
            }
            lemma_last_match_unique(ds, id, path, 0);
        }
        lemma_scan_no_match(staged_read_value(fp, d), rest, id, path, fp);
    }
}

/// A position that matches, with nothing matching after it, is where
/// `last_match` points.
proof fn lemma_last_match_unique(ds: Seq<Delta>, id: int, path: Seq<char>, k: int)
    requires
        0 <= k < ds.len(),
        matches_key(ds[k], id, path),
        forall|m: int| k < m < ds.len() ==> !matches_key(ds[m], id, path),
    ensures
        last_match(ds, id, path) == k,
    decreases ds.len(),
{
    lemma_last_match(ds, id, path);
    let lm = last_match(ds, id, path);
    if lm < k {
        assert(matches_key(ds[k], id, path));
        assert(false);
    }
    if lm > k {
        assert(!matches_key(ds[lm], id, path));
        assert(false);
    }
}

/// A scan over deltas none of which matches returns the value it started
/// with.
proof fn lemma_scan_no_match(
    cur: crate::delta::Value,
    ds: Seq<Delta>,
    id: int,
    path: Seq<char>,
    fp: FieldPath,
)
    requires
        forall|m: int| 0 <= m < ds.len() ==> !matches_key(ds[m], id, path),
    ensures
        spec_scan_staged(cur, ds, id, path, fp) == Ok::<_, ProtocolError>(cur),
    decreases ds.len(),
{
    if ds.len() > 0 {
        let rest = ds.drop_first();
        assert forall|m: int| 0 <= m < rest.len() implies !matches_key(rest[m], id, path) by {
            assert(rest[m] == ds[m + 1]);
        }
        lemma_scan_no_match(cur, rest, id, path, fp);
    }
}

/// Whether two deltas target the same `(index, path)` key.
pub open spec fn same_delta_key(d1: Delta, d2: Delta) -> bool {
    d1.index == d2.index && d1.path@ == d2.path@
}

/// Whether position `k` holds the last delta of its key in the log.
pub open spec fn last_for_key(ds: Seq<Delta>, k: int) -> bool {
    forall|m: int| k < m < ds.len() ==> !same_delta_key(ds[k], ds[m])
}

/// The delta log reduced to the last delta per distinct `(index, path)`
/// key, keeping the order of those survivors.
pub open spec fn collapse_deltas(ds: Seq<Delta>) -> Seq<Delta>
    decreases ds.len(),
{
    if ds.len() == 0 {
        Seq::empty()
    } else if exists|m: int| 1 <= m < ds.len() && same_delta_key(ds[0], ds[m]) {
        collapse_deltas(ds.drop_first())
    } else {
        seq![ds[0]] + collapse_deltas(ds.drop_first())
    }
}

/// What survives the collapse is exactly a delta that is the last of its
/// key: one per distinct `(index, path)` that occurs in the log.
pub proof fn lemma_collapse_keeps_exactly_the_last(ds: Seq<Delta>)
    ensures
        forall|k: int|
            0 <= k < ds.len() && last_for_key(ds, k) ==> collapse_deltas(ds).contains(ds[k]),
        forall|c: int|
            0 <= c < collapse_deltas(ds).len() ==> exists|k: int|
                0 <= k < ds.len() && ds[k] == #[trigger] collapse_deltas(ds)[c] && last_for_key(
                    ds,
                    k,
                ),
    decreases ds.len(),
{
    if ds.len() == 0 {
        return ;
    }
    let rest = ds.drop_first();
    let c = collapse_deltas(ds);
    lemma_collapse_keeps_exactly_the_last(rest);
    assert forall|k: int| 0 <= k < ds.len() && last_for_key(ds, k) implies c.contains(ds[k]) by {
        if k == 0 {
            // nothing later shares the head's key, so the head survives
            assert(forall|m: int| 1 <= m < ds.len() ==> !same_delta_key(ds[0], ds[m]));
            assert(c == seq![ds[0]] + collapse_deltas(rest));
            assert(c[0] == ds[0]);
        } else {
            assert(last_for_key(rest, k - 1)) by {
                assert forall|m: int| #![trigger rest[m]] k - 1 < m < rest.len() implies !same_delta_key(
                    rest[k - 1],
                    rest[m],
                ) by {
                    assert(rest[m] == ds[m + 1]);
                    assert(rest[k - 1] == ds[k]);
                }
            }
            assert(collapse_deltas(rest).contains(ds[k])) by {
                assert(rest[k - 1] == ds[k]);
            }
            let w = choose|w: int|
                0 <= w < collapse_deltas(rest).len() && collapse_deltas(rest)[w] == ds[k];
            if exists|m: int| 1 <= m < ds.len() && same_delta_key(ds[0], ds[m]) {
                assert(c == collapse_deltas(rest));
            } else {
                assert(c == seq![ds[0]] + collapse_deltas(rest));
                assert(c[w + 1] == ds[k]);
            }
        }
    }
    assert forall|cc: int| 0 <= cc < c.len() implies exists|k: int|
        0 <= k < ds.len() && ds[k] == #[trigger] c[cc] && last_for_key(ds, k) by {
        if exists|m: int| 1 <= m < ds.len() && same_delta_key(ds[0], ds[m]) {
            assert(c == collapse_deltas(rest));
            let k = choose|k: int|
                0 <= k < rest.len() && rest[k] == c[cc] && last_for_key(rest, k);
            assert(ds[k + 1] == c[cc]);
            assert(last_for_key(ds, k + 1)) by {
                assert forall|m: int| #![trigger ds[m]] k + 1 < m < ds.len() implies !same_delta_key(
                    ds[k + 1],
                    ds[m],
                ) by {
                    assert(ds[m] == rest[m - 1]);
                    assert(ds[k + 1] == rest[k]);
                }
            }
        } else {
            assert(c == seq![ds[0]] + collapse_deltas(rest));
            if cc == 0 {
                assert(c[0] == ds[0]);
                assert(last_for_key(ds, 0));
            } else {
                assert(c[cc] == collapse_deltas(rest)[cc - 1]);
                let k = choose|k: int|
                    0 <= k < rest.len() && rest[k] == collapse_deltas(rest)[cc - 1]
                        && last_for_key(rest, k);
                assert(ds[k + 1] == c[cc]);
                assert(last_for_key(ds, k + 1)) by {
                    assert forall|m: int| #![trigger ds[m]] k + 1 < m < ds.len() implies !same_delta_key(
                        ds[k + 1],
                        ds[m],
                    ) by {
                        assert(ds[m] == rest[m - 1]);
                        assert(ds[k + 1] == rest[k]);
                    }
                }
            }
        }
    }
}

/// Deleting is the one write with a side effect a later overwrite does not
/// redo: it clears `simulate`, and un-deleting leaves `simulate` alone.
/// So a log is benign when no tombstoning delta is overwritten by an
/// un-deleting one for the same entity: wherever an overwritten `deleted`
/// delta staged `true`, the key's last delta stages `true` as well.
pub open spec fn benign_overwrites(ds: Seq<Delta>) -> bool {
    forall|k1: int, k2: int|
        0 <= k1 < k2 < ds.len() && same_delta_key(ds[k1], ds[k2]) && spec_parse_path(ds[k1].path@)
            == Some(FieldPath::Deleted) && last_for_key(ds, k2) && bool_of(ds[k1].value) ==> bool_of(
            ds[k2].value,
        )
}

/// `dst` with the fields the path `fp` writes taken from `src`.  For
/// `deleted` that is the tombstone, both component tombstones and
/// `simulate`, since tombstoning writes all four.
pub open spec fn copy_field(dst: Entity, src: Entity, fp: FieldPath) -> Entity {
    match fp {
        FieldPath::SpritePos => Entity {
            sprite: crate::entity::Sprite { pos: src.sprite.pos, ..dst.sprite },
            ..dst
        },
        FieldPath::SpriteSize => Entity {
            sprite: crate::entity::Sprite { size: src.sprite.size, ..dst.sprite },
            ..dst
        },
        FieldPath::SpriteOffset => Entity {
            sprite: crate::entity::Sprite { offset: src.sprite.offset, ..dst.sprite },
            ..dst
        },
        FieldPath::SpriteScale => Entity {
            sprite: crate::entity::Sprite { scale: src.sprite.scale, ..dst.sprite },
            ..dst
        },
        FieldPath::HitboxPos => Entity {
            hitbox: crate::entity::Hitbox { pos: src.hitbox.pos, ..dst.hitbox },
            ..dst
        },
        FieldPath::HitboxSize => Entity {
            hitbox: crate::entity::Hitbox { size: src.hitbox.size, ..dst.hitbox },
            ..dst
        },
        FieldPath::HitboxMass => Entity {
            hitbox: crate::entity::Hitbox { mass: src.hitbox.mass, ..dst.hitbox },
            ..dst
        },
        FieldPath::HitboxSimulate => Entity {
            hitbox: crate::entity::Hitbox { simulate: src.hitbox.simulate, ..dst.hitbox },
            ..dst
        },
        FieldPath::Data => Entity { data: src.data, ..dst },
        FieldPath::Deleted => Entity {
            deleted: src.deleted,
            sprite: crate::entity::Sprite { deleted: src.sprite.deleted, ..dst.sprite },
            hitbox: crate::entity::Hitbox {
                deleted: src.hitbox.deleted,
                simulate: src.hitbox.simulate,
                ..dst.hitbox
            },
            ..dst
        },
    }
}

/// `e1` and `e2` agree on every field outside what `fp` writes.
pub open spec fn agree_outside(e1: Entity, e2: Entity, fp: FieldPath) -> bool {
    copy_field(e1, e2, fp) == e2
}

/// An entity written through `fp` agrees with its old self outside `fp`.
proof fn lemma_write_agrees(e: Entity, fp: FieldPath, v1: Value, v2: Value)
    ensures
        agree_outside(write_field_spec(e, fp, v1, v2), e, fp),
{
}

/// Writing the same staged value through the same path, from two states
/// that agree outside that path, converges to the same entity.  The one
/// exception is un-deleting, which keeps each side's `simulate` flag, so
/// there the flags must already agree.
proof fn lemma_write_converges(e1: Entity, e2: Entity, fp: FieldPath, v1: Value, v2: Value)
    requires
        agree_outside(e1, e2, fp),
        fp == FieldPath::Deleted && !bool_of(v1) ==> e1.hitbox.simulate == e2.hitbox.simulate,
    ensures
        write_field_spec(e1, fp, v1, v2) == write_field_spec(e2, fp, v1, v2),
{
}

/// A write through a different path preserves agreement outside `fp`, and
/// never drives two equal `simulate` flags apart.
proof fn lemma_write_preserves(
    e1: Entity,
    e2: Entity,
    fp: FieldPath,
    fp2: FieldPath,
    v1: Value,
    v2: Value,
)
    requires
        agree_outside(e1, e2, fp),
        fp2 != fp,
    ensures
        agree_outside(write_field_spec(e1, fp2, v1, v2), write_field_spec(e2, fp2, v1, v2), fp),
        e1.hitbox.simulate == e2.hitbox.simulate ==> write_field_spec(
            e1,
            fp2,
            v1,
            v2,
        ).hitbox.simulate == write_field_spec(e2, fp2, v1, v2).hitbox.simulate,
{
}

/// Whether a delta passes its checks depends on the array only through its
/// length, so two arrays of one length fail (or not) identically.
proof fn lemma_apply_err_len(es1: Seq<Entity>, es2: Seq<Entity>, ds: Seq<Delta>)
    requires
        es1.len() == es2.len(),
    ensures
        spec_apply_deltas(es1, ds).1 == spec_apply_deltas(es2, ds).1,
    decreases ds.len(),
{
    if ds.len() > 0 {
        match spec_check_delta(es1.len(), ds[0]) {
            Some(_) => {},
            None => {
                lemma_apply_err_len(
                    spec_apply_delta(es1, ds[0]),
                    spec_apply_delta(es2, ds[0]),
                    ds.drop_first(),
                );
            },
        }
    }
}

/// Two path strings inside the closed set that name the same field are the
/// same string.
proof fn lemma_parse_path_injective(s1: Seq<char>, s2: Seq<char>)
    requires
        spec_parse_path(s1) is Some,
        spec_parse_path(s1) == spec_parse_path(s2),
    ensures
        s1 == s2,
{
}

/// Dropping the head shifts `last_match` down by one when the last match
/// is not the head itself.
proof fn lemma_last_match_shift(ds: Seq<Delta>, id: int, path: Seq<char>)
    requires
        ds.len() > 0,
        last_match(ds, id, path) >= 1,
    ensures
        last_match(ds.drop_first(), id, path) == last_match(ds, id, path) - 1,
{
    lemma_last_match(ds, id, path);
    let lm = last_match(ds, id, path);
    let rest = ds.drop_first();
    assert(rest[lm - 1] == ds[lm]);
    assert forall|m: int| lm - 1 < m < rest.len() implies !matches_key(rest[m], id, path) by {
        assert(rest[m] == ds[m + 1]);
    }
    lemma_last_match_unique(rest, id, path, lm - 1);
}

/// Absorption: a pending difference confined to one key's fields at one
/// slot is erased by the rest of the log, provided the log still writes
/// that key (and, where the difference reaches `simulate`, provided the
/// key's last write re-clears it or writes it outright).
proof fn lemma_absorb(
    es1: Seq<Entity>,
    es2: Seq<Entity>,
    ds: Seq<Delta>,
    i: int,
    path: Seq<char>,
    fp: FieldPath,
)
    requires
        es1.len() == es2.len(),
        0 <= i < es1.len(),
        spec_parse_path(path) == Some(fp),
        forall|j: int| 0 <= j < es1.len() && j != i ==> es1[j] == es2[j],
        agree_outside(es1[i], es2[i], fp),
        exists|k: int| 0 <= k < ds.len() && matches_key(ds[k], i, path),
        es1[i].hitbox.simulate != es2[i].hitbox.simulate ==> (fp == FieldPath::HitboxSimulate || (
        fp == FieldPath::Deleted && bool_of(ds[last_match(ds, i, path)].value))),
        spec_apply_deltas(es2, ds).1 is None,
    ensures
        spec_apply_deltas(es1, ds).0 == spec_apply_deltas(es2, ds).0,
        spec_apply_deltas(es1, ds).1 is None,
    decreases ds.len(),
{
    lemma_apply_err_len(es1, es2, ds);
    lemma_last_match(ds, i, path);
    let lm = last_match(ds, i, path);
    assert(lm >= 0) by {
        let k = choose|k: int| 0 <= k < ds.len() && matches_key(ds[k], i, path);
        if lm < k {
            assert(matches_key(ds[k], i, path));
            assert(false);
        }
    }
    let d0 = ds[0];
    let rest = ds.drop_first();
    assert(spec_check_delta(es2.len(), d0) is None);
    let fp0 = spec_parse_path(d0.path@)->Some_0;
    let es1n = spec_apply_delta(es1, d0);
    let es2n = spec_apply_delta(es2, d0);
    assert(spec_apply_deltas(es1, ds) == spec_apply_deltas(es1n, rest));
    assert(spec_apply_deltas(es2, ds) == spec_apply_deltas(es2n, rest));
    if matches_key(d0, i, path) {
        assert(fp0 == fp);
        let w1 = write_field_spec(es1[i], fp, d0.value, d0.value2);
        let w2 = write_field_spec(es2[i], fp, d0.value, d0.value2);
        if fp != FieldPath::Deleted || bool_of(d0.value) || es1[i].hitbox.simulate
            == es2[i].hitbox.simulate {
            // the write covers the whole difference: the two states converge
            lemma_write_converges(es1[i], es2[i], fp, d0.value, d0.value2);
            assert(es1n =~= es2n);
        } else {
            // un-deleting with diverged `simulate` flags: the key's last
            // write stages `true` (the hypothesis), so recurse
            assert(bool_of(ds[lm].value));
            assert(lm != 0);
            lemma_last_match_shift(ds, i, path);
            assert(rest[lm - 1] == ds[lm]);
            assert(agree_outside(w1, w2, FieldPath::Deleted));
            assert(es1n[i] == w1 && es2n[i] == w2);
            assert(forall|j: int| 0 <= j < es1n.len() && j != i ==> es1n[j] == es2n[j]);
            lemma_absorb(es1n, es2n, rest, i, path, fp);
        }
    } else {
        if d0.index as int == i {
            assert(fp0 != fp) by {
                if fp0 == fp {
                    lemma_parse_path_injective(path, d0.path@);
                    assert(false);
                }
            }
            lemma_write_preserves(es1[i], es2[i], fp, fp0, d0.value, d0.value2);
        } else {
            assert(es1[d0.index as int] == es2[d0.index as int]);
            assert(es1n[i] == es1[i] && es2n[i] == es2[i]);
        }
        assert(agree_outside(es1n[i], es2n[i], fp));
        assert(forall|j: int| 0 <= j < es1n.len() && j != i ==> es1n[j] == es2n[j]);
        assert(exists|k: int| 0 <= k < rest.len() && matches_key(rest[k], i, path)) by {
            assert(lm >= 1);
            assert(rest[lm - 1] == ds[lm]);
        }
        assert(es1n[i].hitbox.simulate != es2n[i].hitbox.simulate ==> es1[i].hitbox.simulate
            != es2[i].hitbox.simulate);
        lemma_last_match_shift(ds, i, path);
        assert(rest[lm - 1] == ds[lm]);
        lemma_absorb(es1n, es2n, rest, i, path, fp);
    }
}

/// Dropping the head of a log keeps it benign: keys, order and last
/// writes among the survivors are unchanged.
proof fn lemma_benign_drop_first(ds: Seq<Delta>)
    requires
        ds.len() > 0,
        benign_overwrites(ds),
    ensures
        benign_overwrites(ds.drop_first()),
{
    let rest = ds.drop_first();
    assert forall|k1: int, k2: int|
        0 <= k1 < k2 < rest.len() && same_delta_key(rest[k1], rest[k2]) && spec_parse_path(
            rest[k1].path@,
        ) == Some(FieldPath::Deleted) && last_for_key(rest, k2) && bool_of(
            rest[k1].value,
        ) implies bool_of(rest[k2].value) by {
        assert(rest[k1] == ds[k1 + 1]);
        assert(rest[k2] == ds[k2 + 1]);
        assert(last_for_key(ds, k2 + 1)) by {
            assert forall|m: int| #![trigger ds[m]] k2 + 1 < m < ds.len() implies !same_delta_key(
                ds[k2 + 1],
                ds[m],
            ) by {
                assert(ds[m] == rest[m - 1]);
                assert(!same_delta_key(rest[k2], rest[m - 1]));
            }
        }
        assert(0 <= k1 + 1 < k2 + 1 < ds.len() && same_delta_key(ds[k1 + 1], ds[k2 + 1])
            && spec_parse_path(ds[k1 + 1].path@) == Some(FieldPath::Deleted) && last_for_key(
            ds,
            k2 + 1,
        ) && bool_of(ds[k1 + 1].value));
    }
}

/// Applying a delta log in accumulation order ends in the same state as
/// applying only the last delta per distinct `(index, path)` key: every
/// earlier delta for a key is fully overwritten by the key's last one.
///
/// The one write whose side effect a later overwrite does not redo is
/// tombstoning, which clears `simulate`; the benign-overwrites premise
/// rules out the delete-then-undelete logs where that side effect alone
/// would survive in the full run.
pub proof fn lemma_last_delta_wins(es: Seq<Entity>, ds: Seq<Delta>)
    requires
        spec_apply_deltas(es, ds).1 is None,
        benign_overwrites(ds),
    ensures
        spec_apply_deltas(es, collapse_deltas(ds)).0 == spec_apply_deltas(es, ds).0,
        spec_apply_deltas(es, collapse_deltas(ds)).1 is None,
    decreases ds.len(),
{
    if ds.len() == 0 {
        return ;
    }
    let d0 = ds[0];
    let rest = ds.drop_first();
    let es1 = spec_apply_delta(es, d0);
    assert(spec_check_delta(es.len(), d0) is None);
    assert(spec_apply_deltas(es, ds) == spec_apply_deltas(es1, rest));
    lemma_benign_drop_first(ds);
    let i = d0.index as int;
    let path = d0.path@;
    let fp = spec_parse_path(path)->Some_0;
    if exists|m: int| 1 <= m < ds.len() && same_delta_key(ds[0], ds[m]) {
        // the head is overwritten later: the rest of the log absorbs it
        assert(collapse_deltas(ds) == collapse_deltas(rest));
        let mw = choose|m: int| 1 <= m < ds.len() && same_delta_key(ds[0], ds[m]);
        assert(rest[mw - 1] == ds[mw]);
        assert(matches_key(rest[mw - 1], i, path));
        lemma_last_match(ds, i, path);
        let lm = last_match(ds, i, path);
        assert(lm >= 1) by {
            if lm < mw {
                assert(matches_key(ds[mw], i, path));
                assert(false);
            }
        }
        lemma_write_agrees(es[i], fp, d0.value, d0.value2);
        assert(es1[i] == write_field_spec(es[i], fp, d0.value, d0.value2));
        assert(es1[i].hitbox.simulate != es[i].hitbox.simulate ==> (fp == FieldPath::HitboxSimulate
            || (fp == FieldPath::Deleted && bool_of(ds[lm].value)))) by {
            if es1[i].hitbox.simulate != es[i].hitbox.simulate && fp != FieldPath::HitboxSimulate {
                assert(fp == FieldPath::Deleted && bool_of(d0.value));
                assert(last_for_key(ds, lm)) by {
                    assert forall|m: int| lm < m < ds.len() implies !same_delta_key(
                        ds[lm],
                        ds[m],
                    ) by {
                        if same_delta_key(ds[lm], ds[m]) {
                            assert(matches_key(ds[m], i, path));
                        }
                    }
                }
                assert(same_delta_key(ds[0], ds[lm]));
                assert(bool_of(ds[lm].value));
            }
        }
        lemma_last_match_shift(ds, i, path);
        lemma_apply_err_len(es, es1, rest);
        lemma_absorb(es1, es, rest, i, path, fp);
        assert(spec_apply_deltas(es1, rest).0 == spec_apply_deltas(es, rest).0);
        lemma_last_delta_wins(es, rest);
    } else {
        // the head survives the collapse
        assert(collapse_deltas(ds) == seq![d0] + collapse_deltas(rest));
        lemma_last_delta_wins(es1, rest);
        let c = collapse_deltas(ds);
        assert(c[0] == d0);
        assert(c.drop_first() =~= collapse_deltas(rest));
        assert(spec_check_delta(es.len(), c[0]) is None);
        assert(spec_apply_deltas(es, c) == spec_apply_deltas(es1, collapse_deltas(rest)));
    }
}

} // verus!
