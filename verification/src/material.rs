//! The material table: a fixed number of materials in one uniform buffer,
//! bound with a dynamic offset.

use crate::error::RenderError;
use vstd::prelude::*;

verus! {

/// Bytes from one material to the next in the material buffer.
pub const MATERIAL_STRIDE: u64 = 256;

/// Largest capacity whose buffer size still fits 64 bits.
pub const MAX_MATERIAL_CAPACITY: u64 = 0x00ff_ffff_ffff_ffff;

/// Four colours as the 32-bit words of their single-precision components.
#[derive(Clone, Copy, Debug)]
pub struct GpuMaterial {
    pub primary: [u32; 4],
    pub secondary: [u32; 4],
    pub tertiary: [u32; 4],
    pub quaternary: [u32; 4],
}

/// A [`MaterialResources`] as a mathematical value.
pub struct MaterialTableView {
    pub capacity: u64,
    pub materials: Seq<GpuMaterial>,
}

/// The materials of a scene, in the order in which they were added.
pub struct MaterialResources {
    materials: Vec<GpuMaterial>,
    capacity: u64,
}

impl View for MaterialResources {
    type V = MaterialTableView;

    closed spec fn view(&self) -> MaterialTableView {
        MaterialTableView { capacity: self.capacity, materials: self.materials@ }
    }
}

impl MaterialResources {
    /// The table holds no more materials than its capacity, and its buffer
    /// size fits 64 bits.
    pub open spec fn wf(&self) -> bool {
        &&& self@.materials.len() <= self@.capacity
        &&& self@.capacity <= MAX_MATERIAL_CAPACITY
    }

    /// An empty table for `capacity` materials.
    pub fn new(capacity: u64) -> (table: Self)
        requires
            capacity <= MAX_MATERIAL_CAPACITY,
        ensures
            table.wf(),
            table@.capacity == capacity,
            table@.materials.len() == 0,
    {
        MaterialResources { materials: Vec::new(), capacity }
    }

    pub fn capacity(&self) -> (capacity: u64)
        ensures
            capacity == self@.capacity,
    {
        self.capacity
    }

    /// Number of materials in the table.
    pub fn len(&self) -> (count: usize)
        ensures
            count == self@.materials.len(),
    {
        self.materials.len()
    }

    /// Size of the material buffer in bytes.
    pub fn buffer_size(&self) -> (bytes: u64)
        requires
            self.wf(),
        ensures
            bytes == self@.capacity * MATERIAL_STRIDE,
    {
        self.capacity * MATERIAL_STRIDE
    }

    /// The byte offset in the material buffer at which the material with
    /// the given index is written.
    pub fn buffer_offset(&self, index: u64) -> (bytes: u64)
        requires
            self.wf(),
            index < self@.capacity,
        ensures
            bytes == index * MATERIAL_STRIDE,
    {
        index * MATERIAL_STRIDE
    }

    /// The material with the given index, or `None` where there is none.
    pub fn material(&self, index: u64) -> (material: Option<GpuMaterial>)
        ensures
            material == if index < self@.materials.len() {
                Some(self@.materials[index as int])
            } else {
                None
            },
    {
        if index < self.materials.len() as u64 {
            Some(self.materials[index as usize])
        } else {
            None
        }
    }

    /// Appends a material and returns its index. Fails with
    /// `PoolExhausted`, and changes nothing, exactly when the table is full.
    pub fn add_material(&mut self, material: GpuMaterial) -> (result: Result<u64, RenderError>)
        requires
            old(self).wf(),
        ensures
            final(self).wf(),
            final(self)@.capacity == old(self)@.capacity,
            match result {
                Ok(index) => {
                    &&& old(self)@.materials.len() < old(self)@.capacity
                    &&& index == old(self)@.materials.len()
                    &&& final(self)@.materials == old(self)@.materials.push(material)
                },
                Err(error) => {
                    &&& error == RenderError::PoolExhausted
                    &&& old(self)@.materials.len() == old(self)@.capacity
                    &&& final(self)@ == old(self)@
                },
            },
    {
        let index = self.materials.len() as u64;
        if index >= self.capacity {
            return Err(RenderError::PoolExhausted);
        }
        self.materials.push(material);
        Ok(index)
    }
}

} // verus!
