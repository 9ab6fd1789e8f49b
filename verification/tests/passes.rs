use cells_renderer::command_queue::{CommandQueue, RenderBatch, RenderMeshCommand};
use cells_renderer::deferred_pass::{align_up, material_offset, plan_deferred_pass};
use cells_renderer::error::RenderError;
use cells_renderer::meshes::{MeshResources, MeshType};
use cells_renderer::shadow_passes::{
    plan_shadow_pass, RenderShadowBatch, RenderShadowMeshCommand, SHADOW_DEPTH_BIAS,
};
use cells_renderer::utils::GpuMatrix4;
use cells_renderer::command_queue::{Batch, Command};

fn tagged(tag: u32) -> GpuMatrix4 {
    let mut words = [0u32; 16];
    words[0] = (tag as f32).to_bits();
    words[15] = 1.0f32.to_bits();
    GpuMatrix4::new(words)
}

fn scene() -> MeshResources {
    let mut resources = MeshResources::new();
    resources.add_mesh_type(MeshType::new(4, 36));
    resources.add_mesh_type(MeshType::new(2, 6));
    for slot in 0..4u32 {
        resources.create_mesh(0).unwrap();
        resources.update_model_matrix(0, slot, tagged(slot)).unwrap();
    }
    for slot in 0..2u32 {
        resources.create_mesh(1).unwrap();
        resources.update_model_matrix(1, slot, tagged(100 + slot)).unwrap();
    }
    resources
}

#[test]
fn align_up_rounds_to_the_next_multiple() {
    assert_eq!(align_up(0, 256), 0);
    assert_eq!(align_up(1, 256), 256);
    assert_eq!(align_up(255, 256), 256);
    assert_eq!(align_up(256, 256), 256);
    assert_eq!(align_up(257, 256), 512);
    assert_eq!(align_up(13, 1), 13);
    assert_eq!(align_up(13, 8), 16);
    assert_eq!(align_up(u64::MAX - 255, 256), u64::MAX - 255);
}

#[test]
fn material_offset_is_the_index_aligned_up() {
    assert_eq!(material_offset(0, 256), 0);
    assert_eq!(material_offset(1, 256), 256);
    assert_eq!(material_offset(31, 256), 256);
    assert_eq!(material_offset(5, 4), 8);
    assert_eq!(material_offset(255, 64), 256);
}

#[test]
fn geometry_pass_draws_each_batch_once() {
    let resources = scene();
    let mut queue = CommandQueue::<RenderMeshCommand, RenderBatch>::new();
    for (mesh_type, material, object_index, order) in
        [(0u8, 1u8, 2u16, 0u16), (1, 0, 1, 0), (0, 1, 0, 1), (0, 0, 3, 0), (0, 1, 2, 7)]
    {
        queue.enqueue_command(RenderMeshCommand { mesh_type, material, object_index, order });
    }
    let draws = plan_deferred_pass(&mut queue, &resources, 256).expect("all mesh types known");
    assert_eq!(queue.len(), 0);
    assert_eq!(draws.len(), 3);

    assert_eq!(draws[0].mesh_type, 1);
    assert_eq!(draws[0].material_offset, 0);
    assert_eq!(draws[0].index_count, 6);
    assert_eq!(draws[0].instance_count, 1);
    assert_eq!(draws[0].instances.len(), 1);
    assert_eq!(draws[0].instances[0].matrix, tagged(101).matrix);

    assert_eq!(draws[1].mesh_type, 0);
    assert_eq!(draws[1].material_offset, 256);
    assert_eq!(draws[1].index_count, 36);
    assert_eq!(draws[1].instance_count, 2);
    assert_eq!(draws[1].instances[0].matrix, tagged(2).matrix);
    assert_eq!(draws[1].instances[1].matrix, tagged(0).matrix);

    assert_eq!(draws[2].mesh_type, 0);
    assert_eq!(draws[2].material_offset, 0);
    assert_eq!(draws[2].instance_count, 1);
    assert_eq!(draws[2].instances[0].matrix, tagged(3).matrix);
}

#[test]
fn geometry_pass_refuses_an_unknown_mesh_type() {
    let resources = scene();
    let mut queue = CommandQueue::<RenderMeshCommand, RenderBatch>::new();
    queue.enqueue_command(RenderMeshCommand { mesh_type: 0, material: 0, object_index: 0, order: 0 });
    queue.enqueue_command(RenderMeshCommand { mesh_type: 2, material: 0, object_index: 0, order: 0 });
    assert!(matches!(
        plan_deferred_pass(&mut queue, &resources, 256),
        Err(RenderError::InvalidHandle)
    ));
    assert_eq!(queue.len(), 0);
}

#[test]
fn geometry_pass_of_an_empty_queue_draws_nothing() {
    let resources = scene();
    let mut queue = CommandQueue::<RenderMeshCommand, RenderBatch>::new();
    assert!(plan_deferred_pass(&mut queue, &resources, 256).unwrap().is_empty());
}

#[test]
fn instance_count_follows_the_batch_not_the_pool() {
    let resources = scene();
    let mut queue = CommandQueue::<RenderMeshCommand, RenderBatch>::new();
    queue.enqueue_command(RenderMeshCommand { mesh_type: 1, material: 0, object_index: 1, order: 0 });
    queue.enqueue_command(RenderMeshCommand { mesh_type: 1, material: 0, object_index: 9, order: 0 });
    let draws = plan_deferred_pass(&mut queue, &resources, 256).unwrap();
    assert_eq!(draws.len(), 1);
    assert_eq!(draws[0].instance_count, 2);
    assert_eq!(draws[0].instances.len(), 1);
    assert_eq!(draws[0].instances[0].matrix, tagged(101).matrix);
}

#[test]
fn shadow_key_round_trip() {
    let c = RenderShadowMeshCommand { mesh_type: 127, object_index: 1023, order: 1023 };
    let key = u32::from(c);
    assert_eq!(key, 0xfe0f_ffff);
    assert_eq!(RenderShadowMeshCommand::from(key), c);
    let small = RenderShadowMeshCommand { mesh_type: 1, object_index: 5, order: 0 };
    assert_eq!(u32::from(small), (1 << 25) | (5 << 10));
    assert_eq!(RenderShadowMeshCommand::from(u32::from(small)), small);
    let wide = RenderShadowMeshCommand { mesh_type: 129, object_index: 1025, order: 1026 };
    assert_eq!(
        RenderShadowMeshCommand::from(u32::from(wide)),
        RenderShadowMeshCommand { mesh_type: 1, object_index: 1, order: 2 }
    );
    assert_eq!(
        RenderShadowMeshCommand::from(0x01f0_0000u32),
        RenderShadowMeshCommand { mesh_type: 0, object_index: 0, order: 0 }
    );
}

#[test]
fn shadow_batches_group_by_mesh_type_alone() {
    let mut queue = CommandQueue::<RenderShadowMeshCommand, RenderShadowBatch>::new();
    for (mesh_type, object_index, order) in [(0u8, 2u16, 1u16), (1, 1, 1), (0, 0, 1), (0, 2, 3)] {
        queue.enqueue_command(RenderShadowMeshCommand { mesh_type, object_index, order });
    }
    let first = queue.pop_next_batch().unwrap();
    assert_eq!(first.mesh_type, 1);
    assert_eq!(first.object_indices, vec![1]);
    let second = queue.pop_next_batch().unwrap();
    assert_eq!(second.mesh_type, 0);
    assert_eq!(second.object_indices, vec![2, 0]);
    assert!(queue.pop_next_batch().is_none());
}

#[test]
fn shadow_batch_takes_commands_of_its_mesh_type() {
    let first = RenderShadowMeshCommand { mesh_type: 3, object_index: 4, order: 0 };
    let same = RenderShadowMeshCommand { mesh_type: 3, object_index: 6, order: 0 };
    let other = RenderShadowMeshCommand { mesh_type: 2, object_index: 4, order: 0 };
    assert!(first.is_compatible(&same));
    assert!(!first.is_compatible(&other));
    let mut batch = RenderShadowBatch::new(first);
    assert_eq!(batch.object_indices, vec![4]);
    assert!(batch.add_command(&same));
    assert!(batch.add_command(&first));
    assert!(!batch.add_command(&other));
    assert_eq!(batch.object_indices, vec![4, 6]);
}

#[test]
fn shadow_pass_draws_each_mesh_type_once() {
    let resources = scene();
    let mut queue = CommandQueue::<RenderShadowMeshCommand, RenderShadowBatch>::new();
    for (mesh_type, object_index) in [(0u8, 3u16), (1, 0), (0, 1), (1, 1)] {
        queue.enqueue_command(RenderShadowMeshCommand { mesh_type, object_index, order: 1 });
    }
    let draws = plan_shadow_pass(&mut queue, &resources).expect("all mesh types known");
    assert_eq!(queue.len(), 0);
    assert_eq!(draws.len(), 2);
    assert_eq!(draws[0].mesh_type, 1);
    assert_eq!(draws[0].index_count, 6);
    assert_eq!(draws[0].instance_count, 2);
    assert_eq!(draws[0].instances[0].matrix, tagged(101).matrix);
    assert_eq!(draws[0].instances[1].matrix, tagged(100).matrix);
    assert_eq!(draws[1].mesh_type, 0);
    assert_eq!(draws[1].index_count, 36);
    assert_eq!(draws[1].instance_count, 2);
    assert_eq!(draws[1].instances[0].matrix, tagged(3).matrix);
    assert_eq!(draws[1].instances[1].matrix, tagged(1).matrix);
}

#[test]
fn shadow_pass_refuses_an_unknown_mesh_type() {
    let resources = scene();
    let mut queue = CommandQueue::<RenderShadowMeshCommand, RenderShadowBatch>::new();
    queue.enqueue_command(RenderShadowMeshCommand { mesh_type: 9, object_index: 0, order: 1 });
    assert!(matches!(plan_shadow_pass(&mut queue, &resources), Err(RenderError::InvalidHandle)));
    assert_eq!(queue.len(), 0);
}

#[test]
fn shadow_bias_is_two() {
    assert_eq!(SHADOW_DEPTH_BIAS, 2);
}
