//! Per-mesh-type instance pools: a fixed number of instance slots, a stack
//! of the free ones, and the transform of every slot.

use crate::error::RenderError;
use crate::utils::{GpuMatrix4, MATRIX_BYTES};
use vstd::prelude::*;
use vstd::set_lib::{lemma_int_range, lemma_len_subset, lemma_set_difference_len, set_int_range};

verus! {

/// A [`MeshType`] as a mathematical value.
pub struct MeshTypeView {
    /// Number of instance slots.
    pub capacity: usize,
    /// Number of indices of the type's geometry.
    pub index_count: u32,
    /// The free slots; the last one is handed out next.
    pub free: Seq<usize>,
    /// The transform of every slot, live or not.
    pub matrices: Seq<GpuMatrix4>,
}

impl MeshTypeView {
    /// There is a transform for every slot, and the free stack names slots
    /// of the pool, each at most once.
    pub open spec fn wf(self) -> bool {
        &&& self.matrices.len() == self.capacity
        &&& self.free.no_duplicates()
        &&& forall|i: int| 0 <= i < self.free.len() ==> #[trigger] self.free[i] < self.capacity
    }

    /// The slot is in use: it is a slot of the pool and not on the free
    /// stack.
    pub open spec fn is_live(self, index: int) -> bool {
        0 <= index < self.capacity && !self.free.contains(index as usize)
    }

    /// The slots in use.
    pub open spec fn live_slots(self) -> Set<int> {
        Set::new(|index: int| self.is_live(index))
    }

    /// Number of slots in use.
    pub open spec fn outstanding(self) -> int {
        self.capacity - self.free.len()
    }

    /// `after` is this pool once the top of the free stack, `index`, was
    /// handed out and its transform reset.
    pub open spec fn creates(self, index: usize, after: MeshTypeView) -> bool {
        &&& self.free.len() > 0
        &&& index == self.free.last()
        &&& after.capacity == self.capacity
        &&& after.index_count == self.index_count
        &&& after.free == self.free.drop_last()
        &&& after.matrices.len() == self.matrices.len()
        &&& after.matrices[index as int].is_zero()
        &&& forall|j: int|
            0 <= j < self.matrices.len() && j != index ==> after.matrices[j] == self.matrices[j]
    }

    /// `after` is this pool with the transform of slot `index` replaced.
    pub open spec fn updates(self, index: int, matrix: GpuMatrix4, after: MeshTypeView) -> bool {
        &&& after.capacity == self.capacity
        &&& after.index_count == self.index_count
        &&& after.free == self.free
        &&& after.matrices == self.matrices.update(index, matrix)
    }
}

/// The transforms at `indices`, in that order, without the indices that
/// name no slot. Entry `n` of the result is what draw instance `n` reads.
pub open spec fn gathered(matrices: Seq<GpuMatrix4>, indices: Seq<u32>) -> Seq<GpuMatrix4>
    decreases indices.len(),
{
    if indices.len() == 0 {
        Seq::empty()
    } else {
        let before = gathered(matrices, indices.drop_last());
        if indices.last() < matrices.len() {
            before.push(matrices[indices.last() as int])
        } else {
            before
        }
    }
}

/// Where every index names a slot, instance `n` of the draw call is the
/// slot `indices[n]`, whatever its position in the pool.
pub proof fn lemma_gathered_in_range(matrices: Seq<GpuMatrix4>, indices: Seq<u32>)
    requires
        forall|n: int| 0 <= n < indices.len() ==> #[trigger] indices[n] < matrices.len(),
    ensures
        gathered(matrices, indices).len() == indices.len(),
        forall|n: int|
            0 <= n < indices.len() ==> #[trigger] gathered(matrices, indices)[n]
                == matrices[indices[n] as int],
    decreases indices.len(),
{
    if indices.len() > 0 {
        let front = indices.drop_last();
        assert forall|n: int| 0 <= n < front.len() implies #[trigger] front[n]
            < matrices.len() by {
            assert(front[n] == indices[n]);
        }
        lemma_gathered_in_range(matrices, front);
        assert forall|n: int| 0 <= n < indices.len() implies #[trigger] gathered(
            matrices,
            indices,
        )[n] == matrices[indices[n] as int] by {
            if n < front.len() {
                assert(front[n] == indices[n]);
            }
        }
    }
}

/// The instances of one geometry: which slots are in use, and the transform
/// of each.
///
/// A slot index carries no generation. An index that is kept after its slot
/// was freed names whatever instance takes the slot next.
pub struct MeshType {
    capacity: usize,
    index_count: u32,
    free_indices: Vec<usize>,
    model_matrices: Vec<GpuMatrix4>,
}

impl View for MeshType {
    type V = MeshTypeView;

    closed spec fn view(&self) -> MeshTypeView {
        MeshTypeView {
            capacity: self.capacity,
            index_count: self.index_count,
            free: self.free_indices@,
            matrices: self.model_matrices@,
        }
    }
}

impl MeshType {
    /// The pool's invariant. `new` establishes it and every method keeps it.
    pub open spec fn wf(&self) -> bool {
        self@.wf()
    }

    /// A pool of `capacity` free slots for a geometry of `index_count`
    /// indices. Slot 0 is handed out first, then slot 1, and so on.
    pub fn new(capacity: usize, index_count: u32) -> (pool: Self)
        ensures
            pool.wf(),
            pool@.capacity == capacity,
            pool@.index_count == index_count,
            pool@.free.len() == capacity,
            forall|i: int| 0 <= i < capacity ==> #[trigger] pool@.free[i] == capacity - 1 - i,
            forall|i: int| 0 <= i < capacity ==> (#[trigger] pool@.matrices[i]).is_zero(),
    {
        let mut free_indices: Vec<usize> = Vec::new();
        let mut model_matrices: Vec<GpuMatrix4> = Vec::new();
        let mut i: usize = 0;
        while i < capacity
            invariant
                i <= capacity,
                free_indices@.len() == i,
                model_matrices@.len() == i,
                forall|j: int| 0 <= j < i ==> #[trigger] free_indices@[j] == capacity - 1 - j,
                forall|j: int| 0 <= j < i ==> (#[trigger] model_matrices@[j]).is_zero(),
            decreases capacity - i,
        {
            free_indices.push(capacity - 1 - i);
            model_matrices.push(GpuMatrix4::empty());
            i += 1;
        }
        MeshType { capacity, index_count, free_indices, model_matrices }
    }

    pub fn capacity(&self) -> (capacity: usize)
        ensures
            capacity == self@.capacity,
    {
        self.capacity
    }

    pub fn index_count(&self) -> (index_count: u32)
        ensures
            index_count == self@.index_count,
    {
        self.index_count
    }

    /// Size in bytes of the instance buffer: room for one transform for
    /// every slot.
    pub fn instance_buffer_size(&self) -> (bytes: u64)
        requires
            self@.capacity * MATRIX_BYTES <= u64::MAX,
        ensures
            bytes == self@.capacity * MATRIX_BYTES,
    {
        self.capacity as u64 * MATRIX_BYTES
    }

    /// Number of slots in use.
    pub fn outstanding(&self) -> (count: usize)
        requires
            self.wf(),
        ensures
            count == self@.outstanding(),
    {
        proof {
            lemma_free_fits(self@);
        }
        self.capacity - self.free_indices.len()
    }

    /// Whether the slot is in use.
    pub fn is_live(&self, index: usize) -> (live: bool)
        ensures
            live == self@.is_live(index as int),
    {
        index < self.capacity && !contains_slot(&self.free_indices, index)
    }

    /// The transform of a slot, or `None` where the pool has no such slot.
    pub fn model_matrix(&self, index: usize) -> (matrix: Option<GpuMatrix4>)
        ensures
            matrix == if index < self@.matrices.len() {
                Some(self@.matrices[index as int])
            } else {
                None
            },
    {
        if index < self.model_matrices.len() {
            Some(self.model_matrices[index])
        } else {
            None
        }
    }

    /// Takes a free slot into use and resets its transform to zero.
    ///
    /// The slot returned was not in use before. Fails with `PoolExhausted`
    /// exactly when every slot is in use; the pool does not grow.
    pub fn create_mesh(&mut self) -> (result: Result<usize, RenderError>)
        requires
            old(self).wf(),
        ensures
            final(self).wf(),
            match result {
                Ok(index) => {
                    &&& old(self)@.creates(index, final(self)@)
                    &&& index < old(self)@.capacity
                    &&& !old(self)@.is_live(index as int)
                    &&& final(self)@.is_live(index as int)
                    &&& final(self)@.outstanding() == old(self)@.outstanding() + 1
                    &&& forall|other: int|
                        other != index ==> final(self)@.is_live(other) == old(self)@.is_live(other)
                },
                Err(error) => {
                    &&& error == RenderError::PoolExhausted
                    &&& old(self)@.outstanding() == old(self)@.capacity
                    &&& final(self)@ == old(self)@
                },
            },
    {
        match self.free_indices.pop() {
            None => Err(RenderError::PoolExhausted),
            Some(index) => {
                let ghost free = old(self)@.free;
                assert(free[free.len() - 1] == index);
                assert(index < self.capacity);
                self.model_matrices[index] = GpuMatrix4::empty();
                proof {
                    assert(!free.drop_last().contains(index)) by {
                        if free.drop_last().contains(index) {
                            let at = choose|at: int|
                                0 <= at < free.len() - 1 && free.drop_last()[at] == index;
                            assert(free[at] == free[free.len() - 1]);
                        }
                    }
                    assert forall|other: int| other != index implies self@.is_live(other) == old(
                        self,
                    )@.is_live(other) by {
                        if 0 <= other < self.capacity {
                            if free.contains(other as usize) {
                                let at = choose|at: int|
                                    0 <= at < free.len() && free[at] == other as usize;
                                assert(free.drop_last()[at] == other as usize);
                            }
                            if free.drop_last().contains(other as usize) {
                                let at = choose|at: int|
                                    0 <= at < free.len() - 1 && free.drop_last()[at]
                                        == other as usize;
                                assert(free[at] == other as usize);
                            }
                        }
                    }
                }
                Ok(index)
            },
        }
    }

    /// Gives a slot back to the pool. Fails with `InvalidHandle`, and
    /// changes nothing, exactly when the slot is not in use.
    pub fn free_mesh(&mut self, index: usize) -> (result: Result<(), RenderError>)
        requires
            old(self).wf(),
        ensures
            final(self).wf(),
            match result {
                Ok(()) => {
                    &&& old(self)@.is_live(index as int)
                    &&& !final(self)@.is_live(index as int)
                    &&& final(self)@.capacity == old(self)@.capacity
                    &&& final(self)@.index_count == old(self)@.index_count
                    &&& final(self)@.free == old(self)@.free.push(index)
                    &&& final(self)@.matrices == old(self)@.matrices
                    &&& final(self)@.outstanding() == old(self)@.outstanding() - 1
                    &&& forall|other: int|
                        other != index ==> final(self)@.is_live(other) == old(self)@.is_live(other)
                },
                Err(error) => {
                    &&& error == RenderError::InvalidHandle
                    &&& !old(self)@.is_live(index as int)
                    &&& final(self)@ == old(self)@
                },
            },
    {
        if index >= self.capacity || contains_slot(&self.free_indices, index) {
            return Err(RenderError::InvalidHandle);
        }
        self.free_indices.push(index);
        proof {
            let free = old(self)@.free;
            assert(self@.free[free.len() as int] == index);
            assert forall|other: int| other != index implies self@.is_live(other) == old(
                self,
            )@.is_live(other) by {
                if 0 <= other < self.capacity {
                    if free.contains(other as usize) {
                        let at = choose|at: int| 0 <= at < free.len() && free[at] == other as usize;
                        assert(self@.free[at] == other as usize);
                    }
                }
            }
        }
        Ok(())
    }

    /// Replaces the transform of a slot in the host-side table. Fails with
    /// `InvalidHandle`, and changes nothing, exactly when the pool has no
    /// such slot.
    pub fn update_model_matrix(&mut self, object_index: u32, matrix: GpuMatrix4) -> (result: Result<
        (),
        RenderError,
    >)
        requires
            old(self).wf(),
        ensures
            final(self).wf(),
            match result {
                Ok(()) => object_index < old(self)@.capacity && old(self)@.updates(
                    object_index as int,
                    matrix,
                    final(self)@,
                ),
                Err(error) => error == RenderError::InvalidHandle && object_index >= old(
                    self,
                )@.capacity && final(self)@ == old(self)@,
            },
    {
        let index = object_index as usize;
        if index >= self.model_matrices.len() {
            return Err(RenderError::InvalidHandle);
        }
        self.model_matrices[index] = matrix;
        Ok(())
    }

    /// The transforms of the given slots as one contiguous list, in the
    /// order of `instance_indices`: what is uploaded to the start of the
    /// instance buffer before the batch is drawn. Indices that name no slot
    /// are left out.
    pub fn prepare_instances(&self, instance_indices: &[u32]) -> (instances: Vec<GpuMatrix4>)
        ensures
            instances@ == gathered(self@.matrices, instance_indices@),
    {
        let mut instances: Vec<GpuMatrix4> = Vec::new();
        let mut n: usize = 0;
        while n < instance_indices.len()
            invariant
                n <= instance_indices.len(),
                instances@ == gathered(self@.matrices, instance_indices@.take(n as int)),
            decreases instance_indices.len() - n,
        {
            let index = instance_indices[n] as usize;
            proof {
                assert(instance_indices@.take(n + 1).drop_last() =~= instance_indices@.take(
                    n as int,
                ));
            }
            if index < self.model_matrices.len() {
                instances.push(self.model_matrices[index]);
            }
            n += 1;
        }
        proof {
            assert(instance_indices@.take(n as int) =~= instance_indices@);
        }
        instances
    }
}

/// The mesh types of a scene, addressed by the position at which they were
/// added.
pub struct MeshResources {
    mesh_types: Vec<MeshType>,
}

impl View for MeshResources {
    type V = Seq<MeshTypeView>;

    closed spec fn view(&self) -> Seq<MeshTypeView> {
        self.mesh_types@.map_values(|mesh_type: MeshType| mesh_type@)
    }
}

impl MeshResources {
    /// Every mesh type is well formed.
    pub open spec fn wf(&self) -> bool {
        forall|i: int| 0 <= i < self@.len() ==> (#[trigger] self@[i]).wf()
    }

    pub fn new() -> (resources: Self)
        ensures
            resources.wf(),
            resources@.len() == 0,
    {
        MeshResources { mesh_types: Vec::new() }
    }

    /// Number of mesh types.
    pub fn len(&self) -> (count: usize)
        ensures
            count == self@.len(),
    {
        self.mesh_types.len()
    }

    /// Adds a mesh type and returns the index under which commands name it.
    pub fn add_mesh_type(&mut self, mesh_type: MeshType) -> (index: usize)
        requires
            old(self).wf(),
            mesh_type.wf(),
        ensures
            final(self).wf(),
            index == old(self)@.len(),
            final(self)@ == old(self)@.push(mesh_type@),
    {
        self.mesh_types.push(mesh_type);
        assert(self@ =~= old(self)@.push(mesh_type@));
        self.mesh_types.len() - 1
    }

    /// The mesh type at `index`, or `None` where there is none.
    pub fn mesh_type(&self, index: usize) -> (mesh_type: Option<&MeshType>)
        ensures
            match mesh_type {
                Some(pool) => index < self@.len() && pool@ == self@[index as int],
                None => index >= self@.len(),
            },
    {
        if index < self.mesh_types.len() {
            Some(&self.mesh_types[index])
        } else {
            None
        }
    }

    /// Takes a free slot of the mesh type at `mesh_type_index` into use.
    ///
    /// Fails with `InvalidHandle` where there is no such mesh type, and with
    /// `PoolExhausted` where all its slots are in use; either way nothing
    /// changes.
    pub fn create_mesh(&mut self, mesh_type_index: usize) -> (result: Result<usize, RenderError>)
        requires
            old(self).wf(),
        ensures
            final(self).wf(),
            final(self)@.len() == old(self)@.len(),
            match result {
                Ok(index) => {
                    let before = old(self)@[mesh_type_index as int];
                    let after = final(self)@[mesh_type_index as int];
                    &&& mesh_type_index < old(self)@.len()
                    &&& before.creates(index, after)
                    &&& index < before.capacity
                    &&& !before.is_live(index as int)
                    &&& after.is_live(index as int)
                    &&& final(self)@ == old(self)@.update(mesh_type_index as int, after)
                },
                Err(error) => {
                    &&& final(self)@ == old(self)@
                    &&& if mesh_type_index >= old(self)@.len() {
                        error == RenderError::InvalidHandle
                    } else {
                        error == RenderError::PoolExhausted && old(
                            self,
                        )@[mesh_type_index as int].outstanding() == old(
                            self,
                        )@[mesh_type_index as int].capacity
                    }
                },
            },
    {
        if mesh_type_index >= self.mesh_types.len() {
            return Err(RenderError::InvalidHandle);
        }
        assert(self@[mesh_type_index as int].wf());
        let result = self.mesh_types[mesh_type_index].create_mesh();
        proof {
            match result {
                Ok(_) => {
                    assert(self@ =~= old(self)@.update(
                        mesh_type_index as int,
                        self@[mesh_type_index as int],
                    ));
                },
                Err(_) => {
                    assert(self@ =~= old(self)@);
                },
            }
        }
        result
    }

    /// Gives the slot `index` of the mesh type at `mesh_type_index` back.
    /// Fails with `InvalidHandle`, and changes nothing, exactly when there
    /// is no such mesh type or the slot is not in use.
    pub fn free_mesh(&mut self, mesh_type_index: usize, index: usize) -> (result: Result<
        (),
        RenderError,
    >)
        requires
            old(self).wf(),
        ensures
            final(self).wf(),
            final(self)@.len() == old(self)@.len(),
            match result {
                Ok(()) => {
                    let before = old(self)@[mesh_type_index as int];
                    let after = final(self)@[mesh_type_index as int];
                    &&& mesh_type_index < old(self)@.len()
                    &&& before.is_live(index as int)
                    &&& after.capacity == before.capacity
                    &&& after.index_count == before.index_count
                    &&& after.free == before.free.push(index)
                    &&& after.matrices == before.matrices
                    &&& final(self)@ == old(self)@.update(mesh_type_index as int, after)
                },
                Err(error) => {
                    &&& error == RenderError::InvalidHandle
                    &&& final(self)@ == old(self)@
                    &&& mesh_type_index >= old(self)@.len() || !old(
                        self,
                    )@[mesh_type_index as int].is_live(index as int)
                },
            },
    {
        if mesh_type_index >= self.mesh_types.len() {
            return Err(RenderError::InvalidHandle);
        }
        assert(self@[mesh_type_index as int].wf());
        let result = self.mesh_types[mesh_type_index].free_mesh(index);
        proof {
            match result {
                Ok(_) => {
                    assert(self@ =~= old(self)@.update(
                        mesh_type_index as int,
                        self@[mesh_type_index as int],
                    ));
                },
                Err(_) => {
                    assert(self@ =~= old(self)@);
                },
            }
        }
        result
    }

    /// Replaces the transform of slot `object_index` of the mesh type at
    /// `mesh_type_index`. Fails with `InvalidHandle`, and changes nothing,
    /// exactly when there is no such mesh type or no such slot.
    pub fn update_model_matrix(
        &mut self,
        mesh_type_index: usize,
        object_index: u32,
        matrix: GpuMatrix4,
    ) -> (result: Result<(), RenderError>)
        requires
            old(self).wf(),
        ensures
            final(self).wf(),
            final(self)@.len() == old(self)@.len(),
            match result {
                Ok(()) => {
                    let before = old(self)@[mesh_type_index as int];
                    let after = final(self)@[mesh_type_index as int];
                    &&& mesh_type_index < old(self)@.len()
                    &&& object_index < before.capacity
                    &&& before.updates(object_index as int, matrix, after)
                    &&& final(self)@ == old(self)@.update(mesh_type_index as int, after)
                },
                Err(error) => {
                    &&& error == RenderError::InvalidHandle
                    &&& final(self)@ == old(self)@
                    &&& mesh_type_index >= old(self)@.len() || object_index >= old(
                        self,
                    )@[mesh_type_index as int].capacity
                },
            },
    {
        if mesh_type_index >= self.mesh_types.len() {
            return Err(RenderError::InvalidHandle);
        }
        assert(self@[mesh_type_index as int].wf());
        let result = self.mesh_types[mesh_type_index].update_model_matrix(object_index, matrix);
        proof {
            match result {
                Ok(_) => {
                    assert(self@ =~= old(self)@.update(
                        mesh_type_index as int,
                        self@[mesh_type_index as int],
                    ));
                },
                Err(_) => {
                    assert(self@ =~= old(self)@);
                },
            }
        }
        result
    }
}

/// Whether `slot` occurs in `slots`.
fn contains_slot(slots: &Vec<usize>, slot: usize) -> (found: bool)
    ensures
        found == slots@.contains(slot),
{
    let mut i: usize = 0;
    while i < slots.len()
        invariant
            i <= slots.len(),
            forall|j: int| 0 <= j < i ==> slots@[j] != slot,
        decreases slots.len() - i,
    {
        if slots[i] == slot {
            return true;
        }
        i += 1;
    }
    false
}

/// In a well-formed pool `outstanding` counts the slots in use, and these
/// are never more than the capacity.
pub proof fn lemma_free_fits(pool: MeshTypeView)
    requires
        pool.wf(),
    ensures
        pool.free.len() <= pool.capacity,
        0 <= pool.outstanding() <= pool.capacity,
        pool.live_slots().finite(),
        pool.live_slots().len() == pool.outstanding(),
{
    broadcast use vstd::seq_lib::seq_to_set_is_finite;

    let slots = pool.free.map_values(|slot: usize| slot as int);
    let all = set_int_range(0, pool.capacity as int);
    assert(slots.no_duplicates()) by {
        assert forall|i: int, j: int|
            0 <= i < slots.len() && 0 <= j < slots.len() && i != j implies slots[i]
            != slots[j] by {
            assert(pool.free[i] != pool.free[j]);
        }
    }
    slots.unique_seq_to_set();
    lemma_int_range(0, pool.capacity as int);
    assert(slots.to_set().subset_of(all)) by {
        assert forall|slot: int| slots.to_set().contains(slot) implies all.contains(slot) by {
            let i = choose|i: int| 0 <= i < slots.len() && slots[i] == slot;
            assert(pool.free[i] < pool.capacity);
        }
    }
    lemma_len_subset(slots.to_set(), all);
    lemma_set_difference_len(all, slots.to_set());
    assert(all.intersect(slots.to_set()) =~= slots.to_set());
    assert(pool.live_slots() =~= all.difference(slots.to_set())) by {
        assert forall|slot: int|
            pool.live_slots().contains(slot) <==> all.difference(slots.to_set()).contains(
                slot,
            ) by {
            if 0 <= slot < pool.capacity {
                if pool.free.contains(slot as usize) {
                    let i = choose|i: int| 0 <= i < pool.free.len() && pool.free[i] == slot as usize;
                    assert(slots[i] == slot);
                }
                if slots.to_set().contains(slot) {
                    let i = choose|i: int| 0 <= i < slots.len() && slots[i] == slot;
                    assert(pool.free[i] == slot as usize);
                }
            }
        }
    }
}

} // verus!
