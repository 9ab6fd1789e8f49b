//! The light table: a fixed number of light slots in one uniform buffer.

use crate::error::RenderError;
use vstd::prelude::*;

verus! {

/// Number of light slots.
pub const MAX_LIGHTS: u32 = 20;

/// Bytes that one light takes in the light buffer: three vectors of four
/// single-precision numbers.
pub const LIGHT_BYTES: u64 = 48;

/// Which light slots have not been given out yet.
pub struct LightsResources {
    free_light_indices: Vec<u32>,
}

impl View for LightsResources {
    type V = Seq<u32>;

    /// The free slots; the last one is given out next.
    closed spec fn view(&self) -> Seq<u32> {
        self.free_light_indices@
    }
}

impl LightsResources {
    /// The free slots are slots of the table, each named at most once.
    pub open spec fn wf(&self) -> bool {
        &&& self@.no_duplicates()
        &&& forall|i: int| 0 <= i < self@.len() ==> #[trigger] self@[i] < MAX_LIGHTS
    }

    /// A table with all slots free. The highest slot is given out first.
    pub fn new() -> (lights: Self)
        ensures
            lights.wf(),
            lights@.len() == MAX_LIGHTS,
            forall|i: int| 0 <= i < MAX_LIGHTS ==> #[trigger] lights@[i] == i,
    {
        let mut free_light_indices: Vec<u32> = Vec::new();
        let mut i: u32 = 0;
        while i < MAX_LIGHTS
            invariant
                i <= MAX_LIGHTS,
                free_light_indices@.len() == i,
                forall|j: int| 0 <= j < i ==> #[trigger] free_light_indices@[j] == j,
            decreases MAX_LIGHTS - i,
        {
            free_light_indices.push(i);
            i += 1;
        }
        LightsResources { free_light_indices }
    }

    /// Gives out a free light slot, or `None` when all are taken.
    pub fn create_new_light(&mut self) -> (light_index: Option<u32>)
        requires
            old(self).wf(),
        ensures
            final(self).wf(),
            match light_index {
                Some(index) => {
                    &&& old(self)@.len() > 0
                    &&& index == old(self)@.last()
                    &&& index < MAX_LIGHTS
                    &&& final(self)@ == old(self)@.drop_last()
                    &&& !final(self)@.contains(index)
                },
                None => old(self)@.len() == 0 && final(self)@ == old(self)@,
            },
    {
        let light_index = self.free_light_indices.pop();
        proof {
            if light_index.is_some() {
                let free = old(self)@;
                let index = light_index.unwrap();
                assert(free[free.len() - 1] == index);
                if free.drop_last().contains(index) {
                    let at = choose|at: int| 0 <= at < free.len() - 1 && free.drop_last()[at] == index;
                    assert(free[at] == free[free.len() - 1]);
                }
            }
        }
        light_index
    }

    /// The byte offset in the light buffer at which the light of a slot is
    /// written. Fails with `InvalidHandle` exactly when there is no such
    /// slot.
    pub fn light_offset(light_index: u32) -> (offset: Result<u64, RenderError>)
        ensures
            match offset {
                Ok(bytes) => light_index < MAX_LIGHTS && bytes == light_index * LIGHT_BYTES,
                Err(error) => error == RenderError::InvalidHandle && light_index >= MAX_LIGHTS,
            },
    {
        if light_index >= MAX_LIGHTS {
            return Err(RenderError::InvalidHandle);
        }
        Ok(light_index as u64 * LIGHT_BYTES)
    }
}

} // verus!
