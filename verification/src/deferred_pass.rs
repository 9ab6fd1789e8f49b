//! The geometry pass: one instanced, indexed draw per batch of the mesh
//! command queue.
//!
//! This module decides what is drawn. Recording the draws into a render
//! pass and submitting them is the application's part.

use crate::batching::{
    batch_group, key_group, lemma_drain_one_batch_per_group, pending_groups, pending_object,
    strictly_descending,
};
use crate::command_queue::{
    ascending, drained, key_object_index, lemma_distinct_below, CommandQueue, RenderBatch,
    RenderBatchView, RenderMeshCommand,
};
use crate::error::RenderError;
use crate::meshes::{gathered, MeshResources, MeshTypeView};
use crate::utils::GpuMatrix4;
use vstd::arithmetic::power2::{lemma_pow2_pos, pow2};
use vstd::bits::{lemma_u64_low_bits_mask_is_mod, low_bits_mask};
use vstd::prelude::*;

verus! {

/// `align` is one of 1, 2, 4, and so on.
pub open spec fn is_power_of_two(align: u64) -> bool {
    exists|n: nat| n < 64 && align == #[trigger] pow2(n)
}

/// `align - 1`, for `align >= 1`.
pub open spec fn sub_one(align: u64) -> u64 {
    (align - 1) as u64
}

/// What `align_up` computes: `value + align - 1` with the bits of
/// `align - 1` cleared.
pub open spec fn aligned_up(value: u64, align: u64) -> u64 {
    ((value + align - 1) as u64) & !sub_one(align)
}

/// Rounds `value` up to a multiple of `align`, a power of two.
///
/// For any `align >= 1` the result is `value + align - 1` with the bits of
/// `align - 1` cleared. For a power of two that is the least multiple of
/// `align` that is not below `value`.
pub fn align_up(value: u64, align: u64) -> (aligned: u64)
    requires
        align >= 1,
        value + align - 1 <= u64::MAX,
    ensures
        aligned == aligned_up(value, align),
        is_power_of_two(align) ==> aligned % align == 0 && value <= aligned < value + align,
{
    let mask: u64 = align - 1;
    let raised: u64 = value + mask;
    let aligned = raised & !mask;
    proof {
        if is_power_of_two(align) {
            lemma_align_up(value, align);
        }
    }
    aligned
}

proof fn lemma_align_up(value: u64, align: u64)
    requires
        is_power_of_two(align),
        value + align - 1 <= u64::MAX,
    ensures
        aligned_up(value, align) % align == 0,
        value <= aligned_up(value, align) < value + align,
{
    let n = choose|n: nat| n < 64 && align == #[trigger] pow2(n);
    lemma_pow2_pos(n);
    let mask = sub_one(align);
    let raised = (value + align - 1) as u64;
    assert(raised & !mask <= raised && raised - (raised & !mask) <= mask && (raised & !mask) & mask
        == 0) by (bit_vector);
    assert(mask == low_bits_mask(n) as u64);
    lemma_u64_low_bits_mask_is_mod(raised & !mask, n);
}

/// One instanced, indexed draw of the geometry pass.
pub struct DrawCall {
    /// Index of the mesh type whose geometry is bound.
    pub mesh_type: usize,
    /// Dynamic offset at which the material table is bound.
    pub material_offset: u32,
    /// Transforms to write to the start of the mesh type's instance buffer
    /// before the draw; instance `n` of the draw reads entry `n`.
    pub instances: Vec<GpuMatrix4>,
    /// Number of indices to draw, from the first.
    pub index_count: u32,
    /// Number of instances to draw, from the first.
    pub instance_count: u32,
}

/// A [`DrawCall`] as a mathematical value.
pub struct DrawCallView {
    pub mesh_type: usize,
    pub material_offset: u32,
    pub instances: Seq<GpuMatrix4>,
    pub index_count: u32,
    pub instance_count: u32,
}

impl View for DrawCall {
    type V = DrawCallView;

    open spec fn view(&self) -> DrawCallView {
        DrawCallView {
            mesh_type: self.mesh_type,
            material_offset: self.material_offset,
            instances: self.instances@,
            index_count: self.index_count,
            instance_count: self.instance_count,
        }
    }
}

/// The dynamic offset of a material: its index, aligned up to the device's
/// minimum uniform-buffer offset alignment.
pub open spec fn material_offset_of(material: u8, alignment: u32) -> u32 {
    #[verifier::truncate]
    (aligned_up(material as u64, alignment as u64) as u32)
}

/// The draw that serves `batch`, whose mesh type is one of `mesh_types`.
pub open spec fn draw_of(
    batch: RenderBatchView,
    mesh_types: Seq<MeshTypeView>,
    alignment: u32,
) -> DrawCallView {
    DrawCallView {
        mesh_type: batch.mesh_type as usize,
        material_offset: material_offset_of(batch.material, alignment),
        instances: gathered(mesh_types[batch.mesh_type as int].matrices, batch.object_indices),
        index_count: mesh_types[batch.mesh_type as int].index_count,
        instance_count: batch.object_indices.len() as u32,
    }
}

/// The dynamic offset at which the material table is bound for `material`.
pub fn material_offset(material: u8, alignment: u32) -> (offset: u32)
    requires
        alignment >= 1,
    ensures
        offset == material_offset_of(material, alignment),
{
    #[verifier::truncate]
    (align_up(material as u64, alignment as u64) as u32)
}

/// Every batch that draining yields lists at most 1024 object indices.
pub proof fn lemma_batches_fit(keys: Seq<u32>)
    requires
        ascending(keys),
    ensures
        forall|b: int|
            0 <= b < drained::<RenderMeshCommand, RenderBatch>(keys).len() ==> (
            #[trigger] drained::<RenderMeshCommand, RenderBatch>(keys)[b]).object_indices.len()
                <= 1024,
{
    lemma_drain_one_batch_per_group(keys);
    let batches = drained::<RenderMeshCommand, RenderBatch>(keys);
    assert forall|b: int| 0 <= b < batches.len() implies (#[trigger] batches[b]).object_indices.len()
        <= 1024 by {
        let objects = batches[b].object_indices;
        assert(strictly_descending(objects));
        assert forall|i: int| 0 <= i < objects.len() implies #[trigger] objects[i] < 1024 by {
            assert(objects.contains(objects[i]));
            assert(pending_object(keys, batch_group(batches[b]), objects[i]));
            let k = choose|k: int|
                0 <= k < keys.len() && key_group(#[trigger] keys[k]) == batch_group(batches[b])
                    && key_object_index(keys[k]) == objects[i];
            lemma_object_index_bound(keys[k]);
        }
        lemma_distinct_below(objects, 1024);
    }
}

proof fn lemma_object_index_bound(key: u32)
    ensures
        key_object_index(key) < 1024,
{
    assert(#[verifier::truncate]
    (((key & 0x000f_fc00u32) >> 10) as u16) < 1024) by (bit_vector);
}

/// Drains the mesh command queue into the draws of the geometry pass, in
/// the order in which they are issued: one draw per batch, covering every
/// instance of the batch. That is one draw for each mesh type and material
/// that has a command pending.
///
/// Fails with `InvalidHandle` exactly when a batch names a mesh type that
/// `mesh_resources` does not hold. The queue is empty afterwards either
/// way.
pub fn plan_deferred_pass(
    mesh_commands: &mut CommandQueue<RenderMeshCommand, RenderBatch>,
    mesh_resources: &MeshResources,
    alignment: u32,
) -> (result: Result<Vec<DrawCall>, RenderError>)
    requires
        old(mesh_commands).wf(),
        alignment >= 1,
    ensures
        final(mesh_commands).wf(),
        final(mesh_commands)@.len() == 0,
        ({
            let batches = drained::<RenderMeshCommand, RenderBatch>(old(mesh_commands)@);
            match result {
                Ok(draws) => {
                    &&& draws@.len() == batches.len()
                    &&& draws@.len() == pending_groups(old(mesh_commands)@).len()
                    &&& forall|i: int|
                        0 <= i < batches.len() ==> (#[trigger] batches[i]).mesh_type
                            < mesh_resources@.len()
                    &&& forall|i: int|
                        0 <= i < draws@.len() ==> (#[trigger] draws@[i])@ == draw_of(
                            batches[i],
                            mesh_resources@,
                            alignment,
                        )
                },
                Err(error) => {
                    &&& error == RenderError::InvalidHandle
                    &&& exists|i: int|
                        0 <= i < batches.len() && (#[trigger] batches[i]).mesh_type
                            >= mesh_resources@.len()
                },
            }
        }),
{
    let ghost batches = drained::<RenderMeshCommand, RenderBatch>(mesh_commands@);
    proof {
        lemma_batches_fit(mesh_commands@);
        lemma_drain_one_batch_per_group(mesh_commands@);
    }
    let drained_batches = mesh_commands.drain();
    let mut draws: Vec<DrawCall> = Vec::new();
    let mut i: usize = 0;
    while i < drained_batches.len()
        invariant
            mesh_commands.wf(),
            mesh_commands@.len() == 0,
            batches == drained::<RenderMeshCommand, RenderBatch>(old(mesh_commands)@),
            i <= drained_batches@.len(),
            drained_batches@.len() == batches.len(),
            alignment >= 1,
            forall|j: int|
                0 <= j < drained_batches@.len() ==> (#[trigger] drained_batches@[j])@ == batches[j],
            forall|j: int| 0 <= j < batches.len() ==> (#[trigger] batches[j]).object_indices.len()
                <= 1024,
            draws@.len() == i,
            forall|j: int| 0 <= j < i ==> (#[trigger] batches[j]).mesh_type < mesh_resources@.len(),
            forall|j: int|
                0 <= j < i ==> (#[trigger] draws@[j])@ == draw_of(
                    batches[j],
                    mesh_resources@,
                    alignment,
                ),
        decreases drained_batches@.len() - i,
    {
        let batch = &drained_batches[i];
        assert(batch@ == batches[i as int]);
        match mesh_resources.mesh_type(batch.mesh_type as usize) {
            None => {
                assert(batches[i as int].mesh_type >= mesh_resources@.len());
                return Err(RenderError::InvalidHandle);
            },
            Some(mesh_type) => {
                let draw = DrawCall {
                    mesh_type: batch.mesh_type as usize,
                    material_offset: material_offset(batch.material, alignment),
                    instances: mesh_type.prepare_instances(batch.object_indices.as_slice()),
                    index_count: mesh_type.index_count(),
                    instance_count: batch.object_indices.len() as u32,
                };
                draws.push(draw);
            },
        }
        i += 1;
    }
    Ok(draws)
}

} // verus!
