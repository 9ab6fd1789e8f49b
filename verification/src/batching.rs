//! What the batches of the mesh command queue hold.
//!
//! The queue builds a batch key by key. The lemmas here say what comes out
//! in the end: a batch is the set of all pending commands of the largest
//! mesh type and material, and nothing else.

use crate::command_queue::{
    ascending, batch_after, batch_extent, drained, key_material, key_mesh_type,
    key_object_index, next_batch, next_batch_len, Batch, RenderBatch, RenderBatchView,
    RenderMeshCommand,
};
use vstd::prelude::*;
use vstd::relations::{sorted_by, total_ordering};
use vstd::seq_lib::lemma_sorted_unique;

verus! {

/// Mesh type and material of a key as one number: its twelve top bits.
pub open spec fn key_group(key: u32) -> u32 {
    key >> 20
}

/// Every element is larger than the ones after it.
pub open spec fn strictly_descending(values: Seq<u32>) -> bool {
    forall|i: int, j: int| 0 <= i < j < values.len() ==> values[i] > values[j]
}

/// The object index of one of the `count` largest keys.
pub open spec fn among_top_objects(keys: Seq<u32>, count: nat, object: u32) -> bool {
    exists|i: int|
        keys.len() - count <= i < keys.len() && #[trigger] key_object_index(keys[i]) as u32
            == object
}

proof fn lemma_group_order(a: u32, b: u32)
    requires
        a <= b,
    ensures
        key_group(a) <= key_group(b),
        key_group(a) == key_group(b) ==> key_object_index(a) <= key_object_index(b),
{
    assert(a >> 20 <= b >> 20) by (bit_vector)
        requires
            a <= b,
    ;
    assert(a >> 20 == b >> 20 ==> #[verifier::truncate]
    (((a & 0x000f_fc00u32) >> 10) as u16) <= #[verifier::truncate]
    (((b & 0x000f_fc00u32) >> 10) as u16)) by (bit_vector)
        requires
            a <= b,
    ;
}

proof fn lemma_group_fields(a: u32, b: u32)
    ensures
        key_group(a) == key_group(b) <==> key_mesh_type(a) == key_mesh_type(b) && key_material(a)
            == key_material(b),
{
    assert(a >> 20 == b >> 20 <==> #[verifier::truncate]
    (((a & 0xfe00_0000u32) >> 25) as u8) == #[verifier::truncate]
    (((b & 0xfe00_0000u32) >> 25) as u8) && #[verifier::truncate]
    (((a & 0x01f0_0000u32) >> 20) as u8) == #[verifier::truncate]
    (((b & 0x01f0_0000u32) >> 20) as u8)) by (bit_vector);
}

/// The batch built from the `taken` largest keys, when all of them are of
/// one mesh type and material.
proof fn lemma_batch_after(keys: Seq<u32>, taken: nat)
    requires
        ascending(keys),
        1 <= taken <= keys.len(),
        forall|i: int|
            keys.len() - taken <= i < keys.len() ==> key_group(#[trigger] keys[i]) == key_group(
                keys.last(),
            ),
    ensures
        ({
            let batch = batch_after::<RenderMeshCommand, RenderBatch>(keys, taken);
            &&& batch.mesh_type == key_mesh_type(keys.last())
            &&& batch.material == key_material(keys.last())
            &&& strictly_descending(batch.object_indices)
            &&& batch.object_indices.len() >= 1
            &&& batch.object_indices.last() == key_object_index(keys[keys.len() - taken])
            &&& forall|object: u32|
                batch.object_indices.contains(object) <==> among_top_objects(keys, taken, object)
        }),
    decreases taken,
{
    let batch = batch_after::<RenderMeshCommand, RenderBatch>(keys, taken);
    let n = keys.len() as int;
    if taken == 1 {
        assert(batch.object_indices =~= seq![key_object_index(keys.last()) as u32]);
        assert forall|object: u32|
            batch.object_indices.contains(object) <==> among_top_objects(keys, taken, object) by {
            if batch.object_indices.contains(object) {
                assert(key_object_index(keys[n - 1]) as u32 == object);
            }
            if among_top_objects(keys, taken, object) {
                assert(batch.object_indices[0] == object);
            }
        }
    } else {
        let before = batch_after::<RenderMeshCommand, RenderBatch>(keys, (taken - 1) as nat);
        lemma_batch_after(keys, (taken - 1) as nat);
        let key = keys[n - taken];
        let object = key_object_index(key) as u32;
        lemma_group_order(key, keys[n - taken + 1]);
        assert(key_group(key) == key_group(keys.last()));
        assert(key_group(keys[n - taken + 1]) == key_group(keys.last()));
        assert(object <= before.object_indices.last());
        assert(batch == RenderBatch::added(before, RenderMeshCommand::of_key(key)));
        if before.object_indices.contains(object) {
            assert(batch == before);
            let at = choose|i: int|
                0 <= i < before.object_indices.len() && before.object_indices[i] == object;
            assert(at == before.object_indices.len() - 1);
        } else {
            assert(batch.object_indices == before.object_indices.push(object));
            assert(object < before.object_indices.last());
        }
        assert forall|other: u32|
            batch.object_indices.contains(other) <==> among_top_objects(keys, taken, other) by {
            if batch.object_indices.contains(other) {
                if before.object_indices.contains(other) {
                    assert(among_top_objects(keys, (taken - 1) as nat, other));
                    let i = choose|i: int|
                        n - (taken - 1) <= i < n && #[trigger] key_object_index(keys[i]) as u32
                            == other;
                    assert(key_object_index(keys[i]) as u32 == other);
                } else {
                    assert(other == object);
                    assert(key_object_index(keys[n - taken]) as u32 == other);
                }
            }
            if among_top_objects(keys, taken, other) {
                let i = choose|i: int|
                    n - taken <= i < n && #[trigger] key_object_index(keys[i]) as u32 == other;
                if i == n - taken {
                    assert(other == object);
                    if !before.object_indices.contains(object) {
                        assert(batch.object_indices[batch.object_indices.len() - 1] == object);
                    }
                } else {
                    assert(key_object_index(keys[i]) as u32 == other);
                    assert(among_top_objects(keys, (taken - 1) as nat, other));
                    let at = choose|at: int|
                        0 <= at < before.object_indices.len() && before.object_indices[at]
                            == other;
                    assert(batch.object_indices[at] == other);
                }
            }
        }
    }
}

/// The next batch stops exactly where the mesh type or the material
/// changes.
proof fn lemma_batch_extent(keys: Seq<u32>, taken: nat)
    requires
        ascending(keys),
        1 <= taken <= keys.len(),
        forall|i: int|
            keys.len() - taken <= i < keys.len() ==> key_group(#[trigger] keys[i]) == key_group(
                keys.last(),
            ),
    ensures
        ({
            let extent = batch_extent::<RenderMeshCommand, RenderBatch>(keys, taken);
            &&& taken <= extent <= keys.len()
            &&& forall|i: int|
                keys.len() - extent <= i < keys.len() ==> key_group(#[trigger] keys[i])
                    == key_group(keys.last())
            &&& forall|i: int|
                0 <= i < keys.len() - extent ==> key_group(#[trigger] keys[i]) < key_group(
                    keys.last(),
                )
        }),
    decreases keys.len() - taken,
{
    let n = keys.len() as int;
    if taken < keys.len() {
        let key = keys[n - taken - 1];
        lemma_batch_after(keys, taken);
        lemma_group_fields(key, keys.last());
        lemma_group_order(key, keys.last());
        let batch = batch_after::<RenderMeshCommand, RenderBatch>(keys, taken);
        assert(#[verifier::truncate]
        (batch.mesh_type as u8) == key_mesh_type(keys.last()));
        if RenderBatch::accepts(batch, RenderMeshCommand::of_key(key)) {
            assert(key_group(key) == key_group(keys.last()));
            lemma_batch_extent(keys, taken + 1);
        } else {
            assert(key_group(key) < key_group(keys.last()));
            assert forall|i: int| 0 <= i < n - taken implies key_group(#[trigger] keys[i])
                < key_group(keys.last()) by {
                lemma_group_order(keys[i], key);
            }
        }
    }
}

/// What `pop_next_batch` takes from a queue of mesh commands: all pending
/// commands of the largest mesh type and material, and only those. The
/// batch lists each of their object indices once, the largest first.
pub proof fn lemma_next_batch_is_top_group(keys: Seq<u32>)
    requires
        ascending(keys),
        keys.len() > 0,
    ensures
        ({
            let taken = next_batch_len::<RenderMeshCommand, RenderBatch>(keys);
            let batch = next_batch::<RenderMeshCommand, RenderBatch>(keys);
            &&& 1 <= taken <= keys.len()
            &&& forall|i: int|
                keys.len() - taken <= i < keys.len() ==> key_group(#[trigger] keys[i])
                    == key_group(keys.last())
            &&& forall|i: int|
                0 <= i < keys.len() - taken ==> key_group(#[trigger] keys[i]) < key_group(
                    keys.last(),
                )
            &&& batch.mesh_type == key_mesh_type(keys.last())
            &&& batch.material == key_material(keys.last())
            &&& strictly_descending(batch.object_indices)
            &&& forall|object: u32|
                batch.object_indices.contains(object) <==> among_top_objects(keys, taken, object)
        }),
{
    lemma_batch_extent(keys, 1);
    lemma_batch_after(keys, next_batch_len::<RenderMeshCommand, RenderBatch>(keys));
}

/// Mesh type and material of a batch as one number, as `key_group` gives it
/// for a key.
pub open spec fn batch_group(batch: RenderBatchView) -> int {
    batch.mesh_type * 32 + batch.material
}

/// The mesh types and materials, as groups, that have a command pending.
pub open spec fn pending_groups(keys: Seq<u32>) -> Set<u32> {
    keys.map_values(|key: u32| key_group(key)).to_set()
}

/// The object index of a pending command of the given group.
pub open spec fn pending_object(keys: Seq<u32>, group: int, object: u32) -> bool {
    exists|i: int|
        0 <= i < keys.len() && key_group(#[trigger] keys[i]) == group && key_object_index(keys[i])
            == object
}

/// One of the batches is of the given group.
pub open spec fn has_batch_of(batches: Seq<RenderBatchView>, group: int) -> bool {
    exists|b: int| 0 <= b < batches.len() && batch_group(#[trigger] batches[b]) == group
}

proof fn lemma_group_value(key: u32)
    ensures
        key_group(key) == key_mesh_type(key) * 32 + key_material(key),
        key_mesh_type(key) < 128,
        key_material(key) < 32,
{
    assert(key >> 20 == (#[verifier::truncate]
    (((key & 0xfe00_0000u32) >> 25) as u8)) as u32 * 32 + (#[verifier::truncate]
    (((key & 0x01f0_0000u32) >> 20) as u8)) as u32 && #[verifier::truncate]
    (((key & 0xfe00_0000u32) >> 25) as u8) < 128 && #[verifier::truncate]
    (((key & 0x01f0_0000u32) >> 20) as u8) < 32) by (bit_vector);
}

/// The queue's content does not depend on the order in which the commands
/// were enqueued: two ascending sequences of the same keys are the same
/// sequence, so the same batches come out of them.
pub proof fn lemma_enqueue_order_is_irrelevant(first: Seq<u32>, second: Seq<u32>)
    requires
        ascending(first),
        ascending(second),
        first.to_multiset() == second.to_multiset(),
    ensures
        first == second,
{
    let leq = |a: u32, b: u32| a <= b;
    assert(sorted_by(first, leq));
    assert(sorted_by(second, leq));
    assert(total_ordering(leq));
    lemma_sorted_unique(first, second, leq);
}

/// Commands that all share one mesh type and material leave the queue as a
/// single batch: it takes every pending key, and lists each of their
/// object indices once, the largest first.
pub proof fn lemma_one_group_one_batch(keys: Seq<u32>)
    requires
        ascending(keys),
        keys.len() > 0,
        forall|i: int| 0 <= i < keys.len() ==> key_group(#[trigger] keys[i]) == key_group(keys[0]),
    ensures
        ({
            let batch = next_batch::<RenderMeshCommand, RenderBatch>(keys);
            &&& next_batch_len::<RenderMeshCommand, RenderBatch>(keys) == keys.len()
            &&& drained::<RenderMeshCommand, RenderBatch>(keys) == seq![batch]
            &&& batch.mesh_type == key_mesh_type(keys[0])
            &&& batch.material == key_material(keys[0])
            &&& strictly_descending(batch.object_indices)
            &&& forall|object: u32|
                batch.object_indices.contains(object) <==> exists|i: int|
                    0 <= i < keys.len() && #[trigger] key_object_index(keys[i]) == object
        }),
{
    lemma_next_batch_is_top_group(keys);
    lemma_group_fields(keys[0], keys.last());
    let taken = next_batch_len::<RenderMeshCommand, RenderBatch>(keys);
    let batch = next_batch::<RenderMeshCommand, RenderBatch>(keys);
    if taken < keys.len() {
        assert(key_group(keys[0]) < key_group(keys.last()));
    }
    assert(keys.take(keys.len() - taken) =~= Seq::<u32>::empty());
    assert(drained::<RenderMeshCommand, RenderBatch>(Seq::<u32>::empty()) =~= Seq::empty());
    assert(drained::<RenderMeshCommand, RenderBatch>(keys) =~= seq![batch]);
    assert forall|object: u32|
        batch.object_indices.contains(object) <==> exists|i: int|
            0 <= i < keys.len() && #[trigger] key_object_index(keys[i]) == object by {
        if batch.object_indices.contains(object) {
            assert(among_top_objects(keys, taken, object));
            let i = choose|i: int|
                keys.len() - taken <= i < keys.len() && #[trigger] key_object_index(keys[i]) as u32
                    == object;
            assert(key_object_index(keys[i]) == object);
        }
        if exists|i: int| 0 <= i < keys.len() && #[trigger] key_object_index(keys[i]) == object {
            let i = choose|i: int|
                0 <= i < keys.len() && #[trigger] key_object_index(keys[i]) == object;
            assert(key_object_index(keys[i]) as u32 == object);
            assert(among_top_objects(keys, taken, object));
        }
    }
}

/// Draining yields one batch for each mesh type and material that has a
/// command pending, the largest group first. Each batch lists, once each,
/// the object indices of exactly the pending commands of its group.
pub proof fn lemma_drain_one_batch_per_group(keys: Seq<u32>)
    requires
        ascending(keys),
    ensures
        ({
            let batches = drained::<RenderMeshCommand, RenderBatch>(keys);
            &&& batches.len() == pending_groups(keys).len()
            &&& forall|b: int|
                0 <= b < batches.len() ==> pending_groups(keys).contains(
                    batch_group(#[trigger] batches[b]) as u32,
                ) && batch_group(batches[b]) < 4096
            &&& forall|group: u32| #[trigger]
                pending_groups(keys).contains(group) ==> has_batch_of(batches, group as int)
            &&& forall|b: int, c: int|
                0 <= b < c < batches.len() ==> batch_group(#[trigger] batches[b]) > batch_group(
                    #[trigger] batches[c],
                )
            &&& forall|b: int|
                0 <= b < batches.len() ==> strictly_descending(
                    (#[trigger] batches[b]).object_indices,
                )
            &&& forall|b: int, object: u32|
                0 <= b < batches.len() ==> (#[trigger] batches[b].object_indices.contains(object)
                    <==> pending_object(keys, batch_group(batches[b]), object))
        }),
    decreases keys.len(),
{
    broadcast use vstd::seq_lib::seq_to_set_is_finite;

    let batches = drained::<RenderMeshCommand, RenderBatch>(keys);
    let groups = keys.map_values(|key: u32| key_group(key));
    if keys.len() == 0 {
        assert(pending_groups(keys) =~= Set::<u32>::empty());
    } else {
        lemma_next_batch_is_top_group(keys);
        let taken = next_batch_len::<RenderMeshCommand, RenderBatch>(keys);
        let batch = next_batch::<RenderMeshCommand, RenderBatch>(keys);
        let rest = keys.take(keys.len() - taken);
        let later = drained::<RenderMeshCommand, RenderBatch>(rest);
        let rest_groups = rest.map_values(|key: u32| key_group(key));
        let top = key_group(keys.last());
        lemma_drain_one_batch_per_group(rest);
        lemma_group_value(keys.last());
        assert(batches =~= seq![batch] + later);
        assert(batch_group(batch) == top);
        assert(groups[keys.len() - 1] == top);
        assert(!pending_groups(rest).contains(top)) by {
            if pending_groups(rest).contains(top) {
                let i = choose|i: int| 0 <= i < rest_groups.len() && rest_groups[i] == top;
                assert(key_group(keys[i]) < top);
            }
        }
        assert(pending_groups(keys) =~= pending_groups(rest).insert(top)) by {
            assert forall|group: u32|
                pending_groups(keys).contains(group) <==> pending_groups(rest).insert(
                    top,
                ).contains(group) by {
                if pending_groups(keys).contains(group) {
                    let i = choose|i: int| 0 <= i < groups.len() && groups[i] == group;
                    if i < rest.len() {
                        assert(rest_groups[i] == group);
                    } else {
                        assert(key_group(keys[i]) == top);
                    }
                }
                if pending_groups(rest).contains(group) {
                    let i = choose|i: int| 0 <= i < rest_groups.len() && rest_groups[i] == group;
                    assert(groups[i] == group);
                }
            }
        }
        assert forall|b: int| 0 <= b < batches.len() implies pending_groups(keys).contains(
            batch_group(#[trigger] batches[b]) as u32,
        ) && batch_group(batches[b]) < 4096 by {
            if b > 0 {
                assert(batches[b] == later[b - 1]);
            }
        }
        assert forall|group: u32| #[trigger]
            pending_groups(keys).contains(group) implies has_batch_of(batches, group as int) by {
            if group == top {
                assert(batch_group(batches[0]) == group);
            } else {
                assert(pending_groups(rest).contains(group));
                let b = choose|b: int|
                    0 <= b < later.len() && batch_group(#[trigger] later[b]) == group;
                assert(batches[b + 1] == later[b]);
            }
        }
        assert forall|b: int, c: int| 0 <= b < c < batches.len() implies batch_group(
            #[trigger] batches[b],
        ) > batch_group(#[trigger] batches[c]) by {
            assert(batches[c] == later[c - 1]);
            if b > 0 {
                assert(batches[b] == later[b - 1]);
            } else {
                let group = batch_group(later[c - 1]) as u32;
                assert(pending_groups(rest).contains(group));
                let i = choose|i: int| 0 <= i < rest_groups.len() && rest_groups[i] == group;
                assert(key_group(keys[i]) < top);
            }
        }
        assert forall|b: int| 0 <= b < batches.len() implies strictly_descending(
            (#[trigger] batches[b]).object_indices,
        ) by {
            if b > 0 {
                assert(batches[b] == later[b - 1]);
            }
        }
        assert forall|b: int, object: u32| 0 <= b < batches.len() implies (
        #[trigger] batches[b].object_indices.contains(object) <==> pending_object(
            keys,
            batch_group(batches[b]),
            object,
        )) by {
            if b == 0 {
                if batch.object_indices.contains(object) {
                    assert(among_top_objects(keys, taken, object));
                    let i = choose|i: int|
                        keys.len() - taken <= i < keys.len() && #[trigger] key_object_index(
                            keys[i],
                        ) as u32 == object;
                    assert(key_group(keys[i]) == top);
                }
                if pending_object(keys, top as int, object) {
                    let i = choose|i: int|
                        0 <= i < keys.len() && key_group(#[trigger] keys[i]) == top
                            && key_object_index(keys[i]) == object;
                    assert(i >= keys.len() - taken);
                    assert(key_object_index(keys[i]) as u32 == object);
                    assert(among_top_objects(keys, taken, object));
                }
            } else {
                assert(batches[b] == later[b - 1]);
                let group = batch_group(later[b - 1]);
                assert(pending_groups(rest).contains(group as u32));
                if pending_object(rest, group, object) {
                    let i = choose|i: int|
                        0 <= i < rest.len() && key_group(#[trigger] rest[i]) == group
                            && key_object_index(rest[i]) == object;
                    assert(keys[i] == rest[i]);
                }
                if pending_object(keys, group, object) {
                    let i = choose|i: int|
                        0 <= i < keys.len() && key_group(#[trigger] keys[i]) == group
                            && key_object_index(keys[i]) == object;
                    assert(group != top);
                    assert(i < rest.len());
                    assert(rest[i] == keys[i]);
                }
            }
        }
    }
}

/// Where no object index is pending under two mesh types or materials,
/// draining puts each pending object index into exactly one batch.
pub proof fn lemma_each_object_in_one_batch(keys: Seq<u32>, object: u32)
    requires
        ascending(keys),
        forall|i: int, j: int|
            0 <= i < keys.len() && 0 <= j < keys.len() && key_object_index(#[trigger] keys[i])
                == key_object_index(#[trigger] keys[j]) ==> key_group(keys[i]) == key_group(
                keys[j],
            ),
        exists|i: int| 0 <= i < keys.len() && key_object_index(#[trigger] keys[i]) == object,
    ensures
        ({
            let batches = drained::<RenderMeshCommand, RenderBatch>(keys);
            exists|b: int|
                0 <= b < batches.len() && (#[trigger] batches[b]).object_indices.contains(object)
                    && forall|c: int|
                    0 <= c < batches.len() && (#[trigger] batches[c]).object_indices.contains(
                        object,
                    ) ==> c == b
        }),
{
    broadcast use vstd::seq_lib::seq_to_set_is_finite;

    lemma_drain_one_batch_per_group(keys);
    let batches = drained::<RenderMeshCommand, RenderBatch>(keys);
    let groups = keys.map_values(|key: u32| key_group(key));
    let i = choose|i: int| 0 <= i < keys.len() && key_object_index(#[trigger] keys[i]) == object;
    let group = key_group(keys[i]);
    assert(groups[i] == group);
    assert(pending_groups(keys).contains(group));
    let b = choose|b: int| 0 <= b < batches.len() && batch_group(#[trigger] batches[b]) == group;
    assert(pending_object(keys, batch_group(batches[b]), object));
    assert(batches[b].object_indices.contains(object));
    assert forall|c: int|
        0 <= c < batches.len() && (#[trigger] batches[c]).object_indices.contains(
            object,
        ) implies c == b by {
        assert(pending_object(keys, batch_group(batches[c]), object));
        let j = choose|j: int|
            0 <= j < keys.len() && key_group(#[trigger] keys[j]) == batch_group(batches[c])
                && key_object_index(keys[j]) == object;
        assert(key_group(keys[j]) == key_group(keys[i]));
        if c < b {
            assert(batch_group(batches[c]) > batch_group(batches[b]));
        }
        if b < c {
            assert(batch_group(batches[b]) > batch_group(batches[c]));
        }
    }
}

} // verus!
