use cells_renderer::error::RenderError;
use cells_renderer::lights::{LightsResources, LIGHT_BYTES, MAX_LIGHTS};
use cells_renderer::material::{GpuMaterial, MaterialResources, MATERIAL_STRIDE};

fn material(red: f32) -> GpuMaterial {
    let one = 1.0f32.to_bits();
    GpuMaterial {
        primary: [red.to_bits(), 0, 0, one],
        secondary: [one, 0, 0, one],
        tertiary: [0, 0, 0, one],
        quaternary: [0, 0, 0, one],
    }
}

#[test]
fn twenty_lights_and_no_more() {
    assert_eq!(MAX_LIGHTS, 20);
    let mut lights = LightsResources::new();
    for expected in (0..20u32).rev() {
        assert_eq!(lights.create_new_light(), Some(expected));
    }
    assert_eq!(lights.create_new_light(), None);
    assert_eq!(lights.create_new_light(), None);
}

#[test]
fn light_offsets_step_by_the_size_of_a_light() {
    assert_eq!(LIGHT_BYTES, 48);
    assert_eq!(LightsResources::light_offset(0), Ok(0));
    assert_eq!(LightsResources::light_offset(3), Ok(144));
    assert_eq!(LightsResources::light_offset(19), Ok(912));
    assert_eq!(LightsResources::light_offset(20), Err(RenderError::InvalidHandle));
    assert_eq!(LightsResources::light_offset(u32::MAX), Err(RenderError::InvalidHandle));
}

#[test]
fn materials_are_numbered_in_the_order_added() {
    let mut table = MaterialResources::new(20);
    assert_eq!(table.capacity(), 20);
    assert_eq!(table.buffer_size(), 5120);
    for expected in 0..20u64 {
        assert_eq!(table.add_material(material(expected as f32)), Ok(expected));
    }
    assert_eq!(table.len(), 20);
    assert_eq!(table.add_material(material(0.5)), Err(RenderError::PoolExhausted));
    assert_eq!(table.len(), 20);
    assert_eq!(table.material(7).unwrap().primary[0], 7.0f32.to_bits());
    assert!(table.material(20).is_none());
}

#[test]
fn material_offsets_step_by_the_stride() {
    assert_eq!(MATERIAL_STRIDE, 256);
    let table = MaterialResources::new(20);
    assert_eq!(table.buffer_offset(0), 0);
    assert_eq!(table.buffer_offset(1), 256);
    assert_eq!(table.buffer_offset(19), 4864);
}

#[test]
fn table_without_room_takes_nothing() {
    let mut table = MaterialResources::new(0);
    assert_eq!(table.add_material(material(1.0)), Err(RenderError::PoolExhausted));
    assert_eq!(table.buffer_size(), 0);
}
