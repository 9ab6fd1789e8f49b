use cells_renderer::error::RenderError;
use cells_renderer::meshes::{MeshResources, MeshType};
use cells_renderer::utils::{instance_bytes, instance_words, GpuMatrix4};

fn matrix(seed: f32) -> GpuMatrix4 {
    let mut words = [0u32; 16];
    for (at, word) in words.iter_mut().enumerate() {
        *word = (seed + at as f32).to_bits();
    }
    GpuMatrix4::new(words)
}

#[test]
fn pool_hands_out_each_slot_once() {
    let mut pool = MeshType::new(5, 36);
    assert_eq!(pool.capacity(), 5);
    assert_eq!(pool.index_count(), 36);
    assert_eq!(pool.outstanding(), 0);
    let mut seen = Vec::new();
    for expected in 0..5usize {
        let index = pool.create_mesh().expect("a free slot");
        assert_eq!(index, expected);
        assert!(index < 5);
        assert!(!seen.contains(&index));
        assert!(pool.is_live(index));
        seen.push(index);
    }
    assert_eq!(pool.outstanding(), 5);
    assert_eq!(pool.create_mesh(), Err(RenderError::PoolExhausted));
    assert_eq!(pool.outstanding(), 5);
}

#[test]
fn pool_of_no_slots_is_exhausted_at_once() {
    let mut pool = MeshType::new(0, 3);
    assert_eq!(pool.create_mesh(), Err(RenderError::PoolExhausted));
}

#[test]
fn freed_slot_is_handed_out_again() {
    let mut pool = MeshType::new(3, 6);
    assert_eq!(pool.create_mesh(), Ok(0));
    assert_eq!(pool.create_mesh(), Ok(1));
    assert_eq!(pool.create_mesh(), Ok(2));
    assert_eq!(pool.free_mesh(1), Ok(()));
    assert!(!pool.is_live(1));
    assert_eq!(pool.outstanding(), 2);
    assert_eq!(pool.free_mesh(1), Err(RenderError::InvalidHandle));
    assert_eq!(pool.free_mesh(3), Err(RenderError::InvalidHandle));
    assert_eq!(pool.create_mesh(), Ok(1));
    assert_eq!(pool.create_mesh(), Err(RenderError::PoolExhausted));
}

#[test]
fn create_and_free_keep_live_slots_distinct() {
    let mut pool = MeshType::new(4, 6);
    let mut live: Vec<usize> = Vec::new();
    let steps = [true, true, false, true, true, true, false, false, true, true];
    for create in steps.iter() {
        if *create {
            match pool.create_mesh() {
                Ok(index) => {
                    assert!(index < 4);
                    assert!(!live.contains(&index));
                    live.push(index);
                }
                Err(error) => {
                    assert_eq!(error, RenderError::PoolExhausted);
                    assert_eq!(live.len(), 4);
                }
            }
        } else {
            let index = live.remove(0);
            assert_eq!(pool.free_mesh(index), Ok(()));
        }
        assert_eq!(pool.outstanding(), live.len());
    }
}

#[test]
fn create_resets_the_transform() {
    let mut pool = MeshType::new(2, 6);
    assert_eq!(pool.create_mesh(), Ok(0));
    assert_eq!(pool.update_model_matrix(0, matrix(1.5)), Ok(()));
    assert_eq!(pool.model_matrix(0).unwrap().matrix, matrix(1.5).matrix);
    assert_eq!(pool.free_mesh(0), Ok(()));
    assert_eq!(pool.create_mesh(), Ok(0));
    assert_eq!(pool.model_matrix(0).unwrap().matrix, [0u32; 16]);
    assert!(pool.model_matrix(2).is_none());
}

#[test]
fn update_beyond_the_pool_is_refused() {
    let mut pool = MeshType::new(2, 6);
    assert_eq!(pool.update_model_matrix(2, matrix(1.0)), Err(RenderError::InvalidHandle));
    assert_eq!(pool.update_model_matrix(1, matrix(1.0)), Ok(()));
    assert_eq!(pool.model_matrix(1).unwrap().matrix, matrix(1.0).matrix);
    assert_eq!(pool.model_matrix(0).unwrap().matrix, [0u32; 16]);
}

#[test]
fn instances_follow_the_order_of_the_indices() {
    let mut pool = MeshType::new(4, 6);
    for slot in 0..4u32 {
        pool.create_mesh().unwrap();
        pool.update_model_matrix(slot, matrix(slot as f32 * 100.0)).unwrap();
    }
    let instances = pool.prepare_instances(&[3, 0, 2]);
    assert_eq!(instances.len(), 3);
    assert_eq!(instances[0].matrix, matrix(300.0).matrix);
    assert_eq!(instances[1].matrix, matrix(0.0).matrix);
    assert_eq!(instances[2].matrix, matrix(200.0).matrix);
    let skipping = pool.prepare_instances(&[1, 9, 1, 4, 0]);
    assert_eq!(skipping.len(), 3);
    assert_eq!(skipping[0].matrix, matrix(100.0).matrix);
    assert_eq!(skipping[1].matrix, matrix(100.0).matrix);
    assert_eq!(skipping[2].matrix, matrix(0.0).matrix);
    assert!(pool.prepare_instances(&[]).is_empty());
}

#[test]
fn instance_buffer_has_room_for_every_slot() {
    assert_eq!(MeshType::new(400, 36).instance_buffer_size(), 25600);
    assert_eq!(MeshType::new(0, 36).instance_buffer_size(), 0);
}

#[test]
fn mesh_types_are_addressed_by_position() {
    let mut resources = MeshResources::new();
    assert_eq!(resources.len(), 0);
    assert_eq!(resources.add_mesh_type(MeshType::new(2, 36)), 0);
    assert_eq!(resources.add_mesh_type(MeshType::new(1, 6)), 1);
    assert_eq!(resources.len(), 2);
    assert_eq!(resources.mesh_type(1).unwrap().index_count(), 6);
    assert!(resources.mesh_type(2).is_none());
    assert_eq!(resources.create_mesh(0), Ok(0));
    assert_eq!(resources.create_mesh(0), Ok(1));
    assert_eq!(resources.create_mesh(0), Err(RenderError::PoolExhausted));
    assert_eq!(resources.create_mesh(1), Ok(0));
    assert_eq!(resources.create_mesh(2), Err(RenderError::InvalidHandle));
    assert_eq!(resources.update_model_matrix(0, 1, matrix(2.0)), Ok(()));
    assert_eq!(resources.update_model_matrix(0, 2, matrix(2.0)), Err(RenderError::InvalidHandle));
    assert_eq!(resources.update_model_matrix(5, 0, matrix(2.0)), Err(RenderError::InvalidHandle));
    assert_eq!(resources.mesh_type(0).unwrap().model_matrix(1).unwrap().matrix, matrix(2.0).matrix);
    assert_eq!(resources.free_mesh(0, 0), Ok(()));
    assert_eq!(resources.free_mesh(0, 0), Err(RenderError::InvalidHandle));
    assert_eq!(resources.free_mesh(7, 0), Err(RenderError::InvalidHandle));
    assert_eq!(resources.create_mesh(0), Ok(0));
}

#[test]
fn empty_matrix_is_all_zero() {
    assert_eq!(GpuMatrix4::empty().matrix, [0u32; 16]);
    assert_eq!(GpuMatrix4::empty().matrix[5], 0.0f32.to_bits());
}

#[test]
fn instance_bytes_are_the_words_in_memory() {
    let instances = vec![matrix(1.0), matrix(-7.25)];
    let words = instance_words(&instances);
    assert_eq!(words.len(), 32);
    assert_eq!(words[0], 1.0f32.to_bits());
    assert_eq!(words[15], 16.0f32.to_bits());
    assert_eq!(words[16], (-7.25f32).to_bits());
    let bytes = instance_bytes(&instances);
    assert_eq!(bytes.len(), 128);
    let mut expected = Vec::new();
    for word in words.iter() {
        expected.extend_from_slice(&word.to_ne_bytes());
    }
    assert_eq!(bytes, expected);
    assert!(instance_bytes(&Vec::new()).is_empty());
}
