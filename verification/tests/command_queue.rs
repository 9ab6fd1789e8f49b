use cells_renderer::command_queue::{
    contains_index, Batch, Command, CommandQueue, RenderBatch, RenderMeshCommand,
};

fn command(mesh_type: u8, material: u8, object_index: u16, order: u16) -> RenderMeshCommand {
    RenderMeshCommand { mesh_type, material, object_index, order }
}

fn queue_of(commands: &[RenderMeshCommand]) -> CommandQueue<RenderMeshCommand, RenderBatch> {
    let mut queue = CommandQueue::<RenderMeshCommand, RenderBatch>::new();
    for c in commands {
        queue.enqueue_command(*c);
    }
    queue
}

#[test]
fn drains_two_groups_in_descending_key_order() {
    let mut queue = queue_of(&[command(1, 2, 5, 0), command(1, 2, 9, 1), command(3, 0, 1, 0)]);
    assert_eq!(queue.len(), 3);

    let first = queue.pop_next_batch().expect("a first batch");
    assert_eq!(first.mesh_type, 3);
    assert_eq!(first.material, 0);
    assert_eq!(first.object_indices, vec![1]);
    assert_eq!(queue.len(), 2);

    let second = queue.pop_next_batch().expect("a second batch");
    assert_eq!(second.mesh_type, 1);
    assert_eq!(second.material, 2);
    assert_eq!(second.object_indices, vec![9, 5]);

    assert!(queue.pop_next_batch().is_none());
    assert_eq!(queue.len(), 0);
}

#[test]
fn one_group_gives_one_batch_whatever_the_enqueue_order() {
    let commands = [
        command(4, 7, 12, 0),
        command(4, 7, 3, 5),
        command(4, 7, 12, 9),
        command(4, 7, 800, 1),
        command(4, 7, 3, 5),
    ];
    let orders: [[usize; 5]; 4] =
        [[0, 1, 2, 3, 4], [4, 3, 2, 1, 0], [2, 0, 4, 1, 3], [3, 4, 0, 2, 1]];
    for order in orders.iter() {
        let mut queue = CommandQueue::<RenderMeshCommand, RenderBatch>::new();
        for at in order.iter() {
            queue.enqueue_command(commands[*at]);
        }
        let batch = queue.pop_next_batch().expect("one batch");
        assert_eq!(batch.mesh_type, 4);
        assert_eq!(batch.material, 7);
        assert_eq!(batch.object_indices, vec![800, 12, 3]);
        assert!(queue.pop_next_batch().is_none());
    }
}

#[test]
fn distinct_groups_give_as_many_batches() {
    let mut commands = Vec::new();
    for mesh_type in 0..5u8 {
        for material in 0..3u8 {
            let base = (mesh_type as u16) * 30 + (material as u16) * 10;
            commands.push(command(mesh_type, material, base, 0));
            commands.push(command(mesh_type, material, base + 1, 1));
            commands.push(command(mesh_type, material, base, 2));
        }
    }
    let mut queue = queue_of(&commands);
    let batches = queue.drain();
    assert_eq!(batches.len(), 15);
    assert_eq!(queue.len(), 0);
    let mut seen: Vec<u32> = Vec::new();
    let mut last_group: Option<(u16, u8)> = None;
    for batch in batches.iter() {
        let group = (batch.mesh_type, batch.material);
        if let Some(previous) = last_group {
            assert!(group < previous);
        }
        last_group = Some(group);
        let base = (batch.mesh_type as u32) * 30 + (batch.material as u32) * 10;
        assert_eq!(batch.object_indices, vec![base + 1, base]);
        for object in batch.object_indices.iter() {
            assert!(!seen.contains(object));
            seen.push(*object);
        }
    }
    assert_eq!(seen.len(), 30);
}

#[test]
fn drain_agrees_with_repeated_pop_next_batch() {
    let commands =
        [command(2, 1, 7, 0), command(0, 0, 1, 0), command(2, 0, 7, 3), command(2, 1, 8, 0)];
    let mut popped = queue_of(&commands);
    let mut drained = queue_of(&commands);
    let batches = drained.drain();
    let mut at = 0;
    while let Some(batch) = popped.pop_next_batch() {
        assert_eq!(batch.mesh_type, batches[at].mesh_type);
        assert_eq!(batch.material, batches[at].material);
        assert_eq!(batch.object_indices, batches[at].object_indices);
        at += 1;
    }
    assert_eq!(at, 3);
    assert_eq!(batches.len(), 3);
}

#[test]
fn key_round_trip_at_the_field_limits() {
    let c = command(127, 31, 1023, 1023);
    let key = u32::from(c);
    assert_eq!(key, u32::MAX);
    assert_eq!(RenderMeshCommand::from(key), c);
    let zero = command(0, 0, 0, 0);
    assert_eq!(u32::from(zero), 0);
    assert_eq!(RenderMeshCommand::from(0u32), zero);
}

#[test]
fn key_round_trip_over_sampled_fields() {
    for mesh_type in [0u8, 1, 64, 127] {
        for material in [0u8, 1, 16, 31] {
            for object_index in [0u16, 1, 512, 1023] {
                for order in [0u16, 1, 513, 1023] {
                    let c = command(mesh_type, material, object_index, order);
                    let key: u32 = c.into();
                    assert_eq!(RenderMeshCommand::from(key), c);
                    assert_eq!(u32::from(RenderMeshCommand::from(key)), key);
                }
            }
        }
    }
}

#[test]
fn key_layout_is_seven_five_ten_ten() {
    assert_eq!(u32::from(command(1, 0, 0, 0)), 1 << 25);
    assert_eq!(u32::from(command(0, 1, 0, 0)), 1 << 20);
    assert_eq!(u32::from(command(0, 0, 1, 0)), 1 << 10);
    assert_eq!(u32::from(command(0, 0, 0, 1)), 1);
    assert_eq!(u32::from(command(1, 2, 5, 0)), (1 << 25) | (2 << 20) | (5 << 10));
}

#[test]
fn fields_beyond_their_width_are_cut_down() {
    assert_eq!(u32::from(command(128, 0, 0, 0)), 0);
    assert_eq!(u32::from(command(129, 32, 1024, 1024)), 1 << 25);
    assert_eq!(u32::from(command(255, 255, 65535, 65535)), u32::MAX);
    assert_eq!(RenderMeshCommand::from(u32::from(command(0, 33, 0, 1025))), command(0, 1, 0, 1));
}

#[test]
fn pop_command_returns_the_largest_key_first() {
    let mut queue = queue_of(&[command(1, 0, 0, 0), command(5, 0, 0, 0), command(3, 0, 0, 0)]);
    assert_eq!(queue.pop_command(), Some(command(5, 0, 0, 0)));
    assert_eq!(queue.pop_command(), Some(command(3, 0, 0, 0)));
    assert_eq!(queue.pop_command(), Some(command(1, 0, 0, 0)));
    assert_eq!(queue.pop_command(), None);
}

#[test]
fn empty_queue_has_no_batch() {
    let mut queue = CommandQueue::<RenderMeshCommand, RenderBatch>::new();
    assert!(queue.pop_next_batch().is_none());
    assert!(queue.drain().is_empty());
    assert_eq!(queue.len(), 0);
}

#[test]
fn next_batch_leaves_the_other_groups_pending() {
    let mut queue = queue_of(&[command(2, 2, 1, 0), command(2, 1, 1, 0), command(2, 2, 4, 0)]);
    let batch = queue.pop_next_batch().expect("a batch");
    assert_eq!((batch.mesh_type, batch.material), (2, 2));
    assert_eq!(batch.object_indices, vec![4, 1]);
    assert_eq!(queue.len(), 1);
    assert_eq!(queue.pop_command(), Some(command(2, 1, 1, 0)));
}

#[test]
fn compatible_commands_share_mesh_type_and_material() {
    assert!(command(1, 2, 3, 4).is_compatible(&command(1, 2, 9, 0)));
    assert!(!command(1, 2, 3, 4).is_compatible(&command(1, 3, 3, 4)));
    assert!(!command(1, 2, 3, 4).is_compatible(&command(2, 2, 3, 4)));
}

#[test]
fn batch_takes_each_object_once() {
    let mut batch = RenderBatch::new(command(1, 2, 3, 4));
    assert_eq!(batch.mesh_type, 1);
    assert_eq!(batch.material, 2);
    assert_eq!(batch.object_indices, vec![3]);
    assert!(batch.add_command(&command(1, 2, 3, 0)));
    assert_eq!(batch.object_indices, vec![3]);
    assert!(batch.add_command(&command(1, 2, 8, 0)));
    assert_eq!(batch.object_indices, vec![3, 8]);
    assert!(!batch.add_command(&command(2, 2, 7, 0)));
    assert!(!batch.add_command(&command(1, 3, 7, 0)));
    assert_eq!(batch.object_indices, vec![3, 8]);
}

#[test]
fn contains_index_finds_what_is_there() {
    let values = vec![4u32, 9, 2];
    assert!(contains_index(&values, 9));
    assert!(!contains_index(&values, 5));
    assert!(!contains_index(&Vec::new(), 0));
}
