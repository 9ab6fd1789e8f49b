//! The depth-only shadow pass: its draw requests, keyed by mesh type alone,
//! and what its batches hold.
//!
//! Key layout, most significant bits first:
//!
//! ```text
//! mesh_type (7 bit) | unused (5 bit) | object_index (10 bit) | order (10 bit)
//! ```

use crate::command_queue::{
    ascending, batch_after, batch_extent, contains_index, drained, key_mesh_type,
    key_object_index, key_order, lemma_distinct_below, next_batch, next_batch_len, Batch,
    Command, CommandQueue,
};
use crate::error::RenderError;
use crate::meshes::{gathered, MeshResources, MeshTypeView};
use crate::utils::GpuMatrix4;
use vstd::prelude::*;
use vstd::std_specs::convert::FromSpecImpl;

verus! {

/// Constant depth bias of the shadow pipeline, against self-shadowing.
pub const SHADOW_DEPTH_BIAS: i32 = 2;

/// The key that holds the given fields, each cut down to its width.
pub open spec fn pack_shadow_key(mesh_type: u8, object_index: u16, order: u16) -> u32 {
    ((mesh_type as u32 & 0x7f) << 25) | ((object_index as u32 & 0x3ff) << 10) | (order as u32
        & 0x3ff)
}

/// A request to draw one instance of a mesh type into the shadow map.
#[derive(Clone, Copy, Debug, PartialEq, Eq, Structural)]
pub struct RenderShadowMeshCommand {
    pub mesh_type: u8,
    pub object_index: u16,
    pub order: u16,
}

impl RenderShadowMeshCommand {
    /// Every field fits the width that the key gives it.
    pub open spec fn in_range(self) -> bool {
        &&& self.mesh_type < 128
        &&& self.object_index < 1024
        &&& self.order < 1024
    }

    /// The packed key of this command.
    pub open spec fn key(self) -> u32 {
        pack_shadow_key(self.mesh_type, self.object_index, self.order)
    }

    /// The command that a key stands for. The five bits between the mesh
    /// type and the object index are not read.
    pub open spec fn of_key(key: u32) -> Self {
        RenderShadowMeshCommand {
            mesh_type: key_mesh_type(key),
            object_index: key_object_index(key),
            order: key_order(key),
        }
    }
}

impl From<u32> for RenderShadowMeshCommand {
    fn from(other: u32) -> (command: Self) {
        RenderShadowMeshCommand {
            mesh_type: #[verifier::truncate]
            (((other & 0xfe00_0000u32) >> 25) as u8),
            object_index: #[verifier::truncate]
            (((other & 0x000f_fc00u32) >> 10) as u16),
            order: #[verifier::truncate]
            ((other & 0x0000_03ffu32) as u16),
        }
    }
}

impl FromSpecImpl<u32> for RenderShadowMeshCommand {
    open spec fn obeys_from_spec() -> bool {
        true
    }

    open spec fn from_spec(other: u32) -> Self {
        RenderShadowMeshCommand::of_key(other)
    }
}

impl From<RenderShadowMeshCommand> for u32 {
    fn from(command: RenderShadowMeshCommand) -> (key: u32) {
        ((command.mesh_type as u32 & 0x7f) << 25) | ((command.object_index as u32 & 0x3ff) << 10)
            | (command.order as u32 & 0x3ff)
    }
}

impl FromSpecImpl<RenderShadowMeshCommand> for u32 {
    open spec fn obeys_from_spec() -> bool {
        true
    }

    open spec fn from_spec(command: RenderShadowMeshCommand) -> u32 {
        command.key()
    }
}

/// Decoding the key of an in-range shadow command gives the command back.
pub proof fn lemma_shadow_decode_encode(command: RenderShadowMeshCommand)
    requires
        command.in_range(),
    ensures
        RenderShadowMeshCommand::of_key(command.key()) == command,
{
    let a = command.mesh_type;
    let c = command.object_index;
    let d = command.order;
    assert(key_mesh_type(pack_shadow_key(a, c, d)) == a && key_object_index(
        pack_shadow_key(a, c, d),
    ) == c && key_order(pack_shadow_key(a, c, d)) == d) by (bit_vector)
        requires
            a < 128,
            c < 1024,
            d < 1024,
    ;
}

impl Command for RenderShadowMeshCommand {
    open spec fn compatible(&self, other: &Self) -> bool {
        self.mesh_type == other.mesh_type
    }

    fn is_compatible(&self, other: &Self) -> (compatible: bool) {
        self.mesh_type == other.mesh_type
    }
}

/// The instances of one mesh type that one shadow draw call renders.
pub struct RenderShadowBatch {
    pub object_indices: Vec<u32>,
    pub mesh_type: u16,
}

/// A [`RenderShadowBatch`] as a mathematical value.
pub struct RenderShadowBatchView {
    pub object_indices: Seq<u32>,
    pub mesh_type: u16,
}

impl View for RenderShadowBatch {
    type V = RenderShadowBatchView;

    open spec fn view(&self) -> RenderShadowBatchView {
        RenderShadowBatchView { object_indices: self.object_indices@, mesh_type: self.mesh_type }
    }
}

impl Batch<RenderShadowMeshCommand> for RenderShadowBatch {
    open spec fn opened(first_command: RenderShadowMeshCommand) -> RenderShadowBatchView {
        RenderShadowBatchView {
            object_indices: seq![first_command.object_index as u32],
            mesh_type: first_command.mesh_type as u16,
        }
    }

    open spec fn accepts(batch: RenderShadowBatchView, command: RenderShadowMeshCommand) -> bool {
        command.mesh_type == #[verifier::truncate]
        (batch.mesh_type as u8)
    }

    open spec fn added(
        batch: RenderShadowBatchView,
        command: RenderShadowMeshCommand,
    ) -> RenderShadowBatchView {
        if batch.object_indices.contains(command.object_index as u32) {
            batch
        } else {
            RenderShadowBatchView {
                object_indices: batch.object_indices.push(command.object_index as u32),
                mesh_type: batch.mesh_type,
            }
        }
    }

    fn new(first_command: RenderShadowMeshCommand) -> (batch: Self) {
        let batch = RenderShadowBatch {
            object_indices: vec![first_command.object_index as u32],
            mesh_type: first_command.mesh_type as u16,
        };
        assert(batch@.object_indices =~= seq![first_command.object_index as u32]);
        batch
    }

    /// Takes the command's object index, unless the batch has it already,
    /// if the command is of the batch's mesh type.
    fn add_command(&mut self, command: &RenderShadowMeshCommand) -> (taken: bool) {
        if command.mesh_type == #[verifier::truncate]
        (self.mesh_type as u8) {
            if !contains_index(&self.object_indices, command.object_index as u32) {
                self.object_indices.push(command.object_index as u32);
            }
            true
        } else {
            false
        }
    }
}

/// The object index of one of the `count` largest keys.
pub open spec fn among_top_shadow_objects(keys: Seq<u32>, count: nat, object: u32) -> bool {
    exists|i: int|
        keys.len() - count <= i < keys.len() && #[trigger] key_object_index(keys[i]) as u32
            == object
}

proof fn lemma_mesh_type_order(a: u32, b: u32)
    requires
        a <= b,
    ensures
        key_mesh_type(a) <= key_mesh_type(b),
{
    assert(#[verifier::truncate]
    (((a & 0xfe00_0000u32) >> 25) as u8) <= #[verifier::truncate]
    (((b & 0xfe00_0000u32) >> 25) as u8)) by (bit_vector)
        requires
            a <= b,
    ;
}

proof fn lemma_shadow_batch_after(keys: Seq<u32>, taken: nat)
    requires
        1 <= taken <= keys.len(),
    ensures
        ({
            let batch = batch_after::<RenderShadowMeshCommand, RenderShadowBatch>(keys, taken);
            &&& batch.mesh_type == key_mesh_type(keys.last())
            &&& batch.object_indices.no_duplicates()
            &&& forall|object: u32|
                batch.object_indices.contains(object) <==> among_top_shadow_objects(
                    keys,
                    taken,
                    object,
                )
        }),
    decreases taken,
{
    let batch = batch_after::<RenderShadowMeshCommand, RenderShadowBatch>(keys, taken);
    let n = keys.len() as int;
    if taken == 1 {
        assert(batch.object_indices =~= seq![key_object_index(keys.last()) as u32]);
        assert forall|object: u32|
            batch.object_indices.contains(object) <==> among_top_shadow_objects(
                keys,
                taken,
                object,
            ) by {
            if batch.object_indices.contains(object) {
                assert(key_object_index(keys[n - 1]) as u32 == object);
            }
            if among_top_shadow_objects(keys, taken, object) {
                assert(batch.object_indices[0] == object);
            }
        }
    } else {
        let before = batch_after::<RenderShadowMeshCommand, RenderShadowBatch>(
            keys,
            (taken - 1) as nat,
        );
        lemma_shadow_batch_after(keys, (taken - 1) as nat);
        let object = key_object_index(keys[n - taken]) as u32;
        assert(batch == RenderShadowBatch::added(
            before,
            RenderShadowMeshCommand::of_key(keys[n - taken]),
        ));
        assert forall|other: u32|
            batch.object_indices.contains(other) <==> among_top_shadow_objects(
                keys,
                taken,
                other,
            ) by {
            if batch.object_indices.contains(other) {
                if before.object_indices.contains(other) {
                    assert(among_top_shadow_objects(keys, (taken - 1) as nat, other));
                    let i = choose|i: int|
                        n - (taken - 1) <= i < n && #[trigger] key_object_index(keys[i]) as u32
                            == other;
                    assert(key_object_index(keys[i]) as u32 == other);
                } else {
                    assert(other == object);
                    assert(key_object_index(keys[n - taken]) as u32 == other);
                }
            }
            if among_top_shadow_objects(keys, taken, other) {
                let i = choose|i: int|
                    n - taken <= i < n && #[trigger] key_object_index(keys[i]) as u32 == other;
                if i == n - taken {
                    if !before.object_indices.contains(object) {
                        assert(batch.object_indices[batch.object_indices.len() - 1] == object);
                    }
                } else {
                    assert(key_object_index(keys[i]) as u32 == other);
                    assert(among_top_shadow_objects(keys, (taken - 1) as nat, other));
                    let at = choose|at: int|
                        0 <= at < before.object_indices.len() && before.object_indices[at]
                            == other;
                    assert(batch.object_indices[at] == other);
                }
            }
        }
    }
}

proof fn lemma_shadow_batch_extent(keys: Seq<u32>, taken: nat)
    requires
        ascending(keys),
        1 <= taken <= keys.len(),
        forall|i: int|
            keys.len() - taken <= i < keys.len() ==> key_mesh_type(#[trigger] keys[i])
                == key_mesh_type(keys.last()),
    ensures
        ({
            let extent = batch_extent::<RenderShadowMeshCommand, RenderShadowBatch>(keys, taken);
            &&& taken <= extent <= keys.len()
            &&& forall|i: int|
                keys.len() - extent <= i < keys.len() ==> key_mesh_type(#[trigger] keys[i])
                    == key_mesh_type(keys.last())
            &&& forall|i: int|
                0 <= i < keys.len() - extent ==> key_mesh_type(#[trigger] keys[i]) < key_mesh_type(
                    keys.last(),
                )
        }),
    decreases keys.len() - taken,
{
    let n = keys.len() as int;
    if taken < keys.len() {
        let key = keys[n - taken - 1];
        lemma_shadow_batch_after(keys, taken);
        lemma_mesh_type_order(key, keys.last());
        let batch = batch_after::<RenderShadowMeshCommand, RenderShadowBatch>(keys, taken);
        assert(#[verifier::truncate]
        (batch.mesh_type as u8) == key_mesh_type(keys.last()));
        if RenderShadowBatch::accepts(batch, RenderShadowMeshCommand::of_key(key)) {
            lemma_shadow_batch_extent(keys, taken + 1);
        } else {
            assert forall|i: int| 0 <= i < n - taken implies key_mesh_type(#[trigger] keys[i])
                < key_mesh_type(keys.last()) by {
                lemma_mesh_type_order(keys[i], key);
            }
        }
    }
}

/// What `pop_next_batch` takes from a queue of shadow commands: all pending
/// commands of the largest mesh type, and only those. The batch lists each
/// of their object indices once.
pub proof fn lemma_next_shadow_batch_is_top_mesh_type(keys: Seq<u32>)
    requires
        ascending(keys),
        keys.len() > 0,
    ensures
        ({
            let taken = next_batch_len::<RenderShadowMeshCommand, RenderShadowBatch>(keys);
            let batch = next_batch::<RenderShadowMeshCommand, RenderShadowBatch>(keys);
            &&& 1 <= taken <= keys.len()
            &&& forall|i: int|
                keys.len() - taken <= i < keys.len() ==> key_mesh_type(#[trigger] keys[i])
                    == key_mesh_type(keys.last())
            &&& forall|i: int|
                0 <= i < keys.len() - taken ==> key_mesh_type(#[trigger] keys[i]) < key_mesh_type(
                    keys.last(),
                )
            &&& batch.mesh_type == key_mesh_type(keys.last())
            &&& batch.object_indices.no_duplicates()
            &&& forall|object: u32|
                batch.object_indices.contains(object) <==> among_top_shadow_objects(
                    keys,
                    taken,
                    object,
                )
        }),
{
    lemma_shadow_batch_extent(keys, 1);
    lemma_shadow_batch_after(keys, next_batch_len::<RenderShadowMeshCommand, RenderShadowBatch>(keys));
}

/// One instanced, indexed draw of the shadow pass.
pub struct ShadowDrawCall {
    /// Index of the mesh type whose geometry is bound.
    pub mesh_type: usize,
    /// Transforms to write to the start of the mesh type's instance buffer
    /// before the draw; instance `n` of the draw reads entry `n`.
    pub instances: Vec<GpuMatrix4>,
    /// Number of indices to draw, from the first.
    pub index_count: u32,
    /// Number of instances to draw, from the first.
    pub instance_count: u32,
}

/// A [`ShadowDrawCall`] as a mathematical value.
pub struct ShadowDrawCallView {
    pub mesh_type: usize,
    pub instances: Seq<GpuMatrix4>,
    pub index_count: u32,
    pub instance_count: u32,
}

impl View for ShadowDrawCall {
    type V = ShadowDrawCallView;

    open spec fn view(&self) -> ShadowDrawCallView {
        ShadowDrawCallView {
            mesh_type: self.mesh_type,
            instances: self.instances@,
            index_count: self.index_count,
            instance_count: self.instance_count,
        }
    }
}

/// The draw that serves `batch`, whose mesh type is one of `mesh_types`.
pub open spec fn shadow_draw_of(
    batch: RenderShadowBatchView,
    mesh_types: Seq<MeshTypeView>,
) -> ShadowDrawCallView {
    ShadowDrawCallView {
        mesh_type: batch.mesh_type as usize,
        instances: gathered(mesh_types[batch.mesh_type as int].matrices, batch.object_indices),
        index_count: mesh_types[batch.mesh_type as int].index_count,
        instance_count: batch.object_indices.len() as u32,
    }
}

/// Every batch that draining yields lists at most 1024 object indices,
/// none of them twice.
pub proof fn lemma_shadow_batches_fit(keys: Seq<u32>)
    requires
        ascending(keys),
    ensures
        forall|b: int|
            0 <= b < drained::<RenderShadowMeshCommand, RenderShadowBatch>(keys).len() ==> (
            #[trigger] drained::<RenderShadowMeshCommand, RenderShadowBatch>(
                keys,
            )[b]).object_indices.len() <= 1024 && drained::<
                RenderShadowMeshCommand,
                RenderShadowBatch,
            >(keys)[b].object_indices.no_duplicates(),
    decreases keys.len(),
{
    let batches = drained::<RenderShadowMeshCommand, RenderShadowBatch>(keys);
    if keys.len() > 0 {
        lemma_next_shadow_batch_is_top_mesh_type(keys);
        let taken = next_batch_len::<RenderShadowMeshCommand, RenderShadowBatch>(keys);
        let batch = next_batch::<RenderShadowMeshCommand, RenderShadowBatch>(keys);
        let rest = keys.take(keys.len() - taken);
        let later = drained::<RenderShadowMeshCommand, RenderShadowBatch>(rest);
        lemma_shadow_batches_fit(rest);
        assert(batches =~= seq![batch] + later);
        let objects = batch.object_indices;
        assert forall|i: int| 0 <= i < objects.len() implies #[trigger] objects[i] < 1024 by {
            assert(objects.contains(objects[i]));
            assert(among_top_shadow_objects(keys, taken, objects[i]));
            let k = choose|k: int|
                keys.len() - taken <= k < keys.len() && #[trigger] key_object_index(keys[k]) as u32
                    == objects[i];
            let key = keys[k];
            assert(#[verifier::truncate]
            (((key & 0x000f_fc00u32) >> 10) as u16) < 1024) by (bit_vector);
        }
        lemma_distinct_below(objects, 1024);
        assert forall|b: int| 0 <= b < batches.len() implies (
        #[trigger] batches[b]).object_indices.len() <= 1024
            && batches[b].object_indices.no_duplicates() by {
            if b > 0 {
                assert(batches[b] == later[b - 1]);
            }
        }
    }
}

/// Drains the shadow command queue into the draws of the shadow pass, in
/// the order in which they are issued: one draw per batch, covering every
/// instance of the batch.
///
/// Fails with `InvalidHandle` exactly when a batch names a mesh type that
/// `mesh_resources` does not hold. The queue is empty afterwards either
/// way.
pub fn plan_shadow_pass(
    shadow_mesh_commands: &mut CommandQueue<RenderShadowMeshCommand, RenderShadowBatch>,
    mesh_resources: &MeshResources,
) -> (result: Result<Vec<ShadowDrawCall>, RenderError>)
    requires
        old(shadow_mesh_commands).wf(),
    ensures
        final(shadow_mesh_commands).wf(),
        final(shadow_mesh_commands)@.len() == 0,
        ({
            let batches = drained::<RenderShadowMeshCommand, RenderShadowBatch>(
                old(shadow_mesh_commands)@,
            );
            match result {
                Ok(draws) => {
                    &&& draws@.len() == batches.len()
                    &&& forall|i: int|
                        0 <= i < batches.len() ==> (#[trigger] batches[i]).mesh_type
                            < mesh_resources@.len()
                    &&& forall|i: int|
                        0 <= i < draws@.len() ==> (#[trigger] draws@[i])@ == shadow_draw_of(
                            batches[i],
                            mesh_resources@,
                        )
                },
                Err(error) => {
                    &&& error == RenderError::InvalidHandle
                    &&& exists|i: int|
                        0 <= i < batches.len() && (#[trigger] batches[i]).mesh_type
                            >= mesh_resources@.len()
                },
            }
        }),
{
    let ghost batches = drained::<RenderShadowMeshCommand, RenderShadowBatch>(
        shadow_mesh_commands@,
    );
    proof {
        lemma_shadow_batches_fit(shadow_mesh_commands@);
    }
    let drained_batches = shadow_mesh_commands.drain();
    let mut draws: Vec<ShadowDrawCall> = Vec::new();
    let mut i: usize = 0;
    while i < drained_batches.len()
        invariant
            shadow_mesh_commands.wf(),
            shadow_mesh_commands@.len() == 0,
            batches == drained::<RenderShadowMeshCommand, RenderShadowBatch>(
                old(shadow_mesh_commands)@,
            ),
            i <= drained_batches@.len(),
            drained_batches@.len() == batches.len(),
            forall|j: int|
                0 <= j < drained_batches@.len() ==> (#[trigger] drained_batches@[j])@ == batches[j],
            forall|j: int| 0 <= j < batches.len() ==> (#[trigger] batches[j]).object_indices.len()
                <= 1024,
            draws@.len() == i,
            forall|j: int| 0 <= j < i ==> (#[trigger] batches[j]).mesh_type < mesh_resources@.len(),
            forall|j: int|
                0 <= j < i ==> (#[trigger] draws@[j])@ == shadow_draw_of(
                    batches[j],
                    mesh_resources@,
                ),
        decreases drained_batches@.len() - i,
    {
        let batch = &drained_batches[i];
        assert(batch@ == batches[i as int]);
        match mesh_resources.mesh_type(batch.mesh_type as usize) {
            None => {
                assert(batches[i as int].mesh_type >= mesh_resources@.len());
                return Err(RenderError::InvalidHandle);
            },
            Some(mesh_type) => {
                let draw = ShadowDrawCall {
                    mesh_type: batch.mesh_type as usize,
                    instances: mesh_type.prepare_instances(batch.object_indices.as_slice()),
                    index_count: mesh_type.index_count(),
                    instance_count: batch.object_indices.len() as u32,
                };
                draws.push(draw);
            },
        }
        i += 1;
    }
    Ok(draws)
}

} // verus!
