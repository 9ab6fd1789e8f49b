//! Draw requests packed into sortable 32-bit keys, and the queue that drains
//! them into instanced batches.
//!
//! Key layout, most significant bits first:
//!
//! ```text
//! mesh_type (7 bit) | material (5 bit) | object_index (10 bit) | order (10 bit)
//! ```
//!
//! Because the mesh type and the material occupy the top bits, draining the
//! keys from the largest down visits all requests of one mesh type and
//! material in a row.

use std::marker::PhantomData;
use vstd::prelude::*;
use vstd::seq_lib::to_multiset_insert;
use vstd::set_lib::{lemma_int_range, lemma_len_subset, set_int_range};
use vstd::std_specs::convert::{FromSpec, FromSpecImpl, IntoSpec};

verus! {

/// Mesh type stored in the top seven bits of `key`.
pub open spec fn key_mesh_type(key: u32) -> u8 {
    #[verifier::truncate]
    (((key & 0xfe00_0000u32) >> 25) as u8)
}

/// Material stored in the five bits below the mesh type.
pub open spec fn key_material(key: u32) -> u8 {
    #[verifier::truncate]
    (((key & 0x01f0_0000u32) >> 20) as u8)
}

/// Object index stored in bits 10 to 19.
pub open spec fn key_object_index(key: u32) -> u16 {
    #[verifier::truncate]
    (((key & 0x000f_fc00u32) >> 10) as u16)
}

/// Order stored in the low ten bits.
pub open spec fn key_order(key: u32) -> u16 {
    #[verifier::truncate]
    ((key & 0x0000_03ffu32) as u16)
}

/// The key that holds the given fields, each cut down to its width.
pub open spec fn pack_key(mesh_type: u8, material: u8, object_index: u16, order: u16) -> u32 {
    ((mesh_type as u32 & 0x7f) << 25) | ((material as u32 & 0x1f) << 20) | ((object_index as u32
        & 0x3ff) << 10) | (order as u32 & 0x3ff)
}

/// A request to draw one instance of a mesh type with a material.
#[derive(Clone, Copy, Debug, PartialEq, Eq, Structural)]
pub struct RenderMeshCommand {
    pub mesh_type: u8,
    pub material: u8,
    pub object_index: u16,
    pub order: u16,
}

impl RenderMeshCommand {
    /// Every field fits the width that the key gives it.
    pub open spec fn in_range(self) -> bool {
        &&& self.mesh_type < 128
        &&& self.material < 32
        &&& self.object_index < 1024
        &&& self.order < 1024
    }

    /// The packed key of this command.
    pub open spec fn key(self) -> u32 {
        pack_key(self.mesh_type, self.material, self.object_index, self.order)
    }

    /// The command that a key stands for.
    pub open spec fn of_key(key: u32) -> Self {
        RenderMeshCommand {
            mesh_type: key_mesh_type(key),
            material: key_material(key),
            object_index: key_object_index(key),
            order: key_order(key),
        }
    }
}

impl From<u32> for RenderMeshCommand {
    fn from(other: u32) -> (command: Self) {
        RenderMeshCommand {
            mesh_type: #[verifier::truncate]
            (((other & 0xfe00_0000u32) >> 25) as u8),
            material: #[verifier::truncate]
            (((other & 0x01f0_0000u32) >> 20) as u8),
            object_index: #[verifier::truncate]
            (((other & 0x000f_fc00u32) >> 10) as u16),
            order: #[verifier::truncate]
            ((other & 0x0000_03ffu32) as u16),
        }
    }
}

impl FromSpecImpl<u32> for RenderMeshCommand {
    open spec fn obeys_from_spec() -> bool {
        true
    }

    open spec fn from_spec(other: u32) -> Self {
        RenderMeshCommand::of_key(other)
    }
}

impl From<RenderMeshCommand> for u32 {
    fn from(command: RenderMeshCommand) -> (key: u32) {
        ((command.mesh_type as u32 & 0x7f) << 25) | ((command.material as u32 & 0x1f) << 20) | ((
        command.object_index as u32 & 0x3ff) << 10) | (command.order as u32 & 0x3ff)
    }
}

impl FromSpecImpl<RenderMeshCommand> for u32 {
    open spec fn obeys_from_spec() -> bool {
        true
    }

    open spec fn from_spec(command: RenderMeshCommand) -> u32 {
        command.key()
    }
}

/// Packing is a bijection between in-range commands and keys: decoding the
/// key of an in-range command gives the command back.
pub proof fn lemma_decode_encode(command: RenderMeshCommand)
    requires
        command.in_range(),
    ensures
        RenderMeshCommand::of_key(command.key()) == command,
{
    let a = command.mesh_type;
    let b = command.material;
    let c = command.object_index;
    let d = command.order;
    assert(key_mesh_type(pack_key(a, b, c, d)) == a && key_material(pack_key(a, b, c, d)) == b
        && key_object_index(pack_key(a, b, c, d)) == c && key_order(pack_key(a, b, c, d)) == d)
        by (bit_vector)
        requires
            a < 128,
            b < 32,
            c < 1024,
            d < 1024,
    ;
}

/// Every key is the key of the command it decodes to, and that command is
/// in range: no two in-range commands share a key.
pub proof fn lemma_encode_decode(key: u32)
    ensures
        RenderMeshCommand::of_key(key).in_range(),
        RenderMeshCommand::of_key(key).key() == key,
{
    assert(#[verifier::truncate]
    (((key & 0xfe00_0000u32) >> 25) as u8) < 128 && #[verifier::truncate]
    (((key & 0x01f0_0000u32) >> 20) as u8) < 32 && #[verifier::truncate]
    (((key & 0x000f_fc00u32) >> 10) as u16) < 1024 && #[verifier::truncate]
    ((key & 0x0000_03ffu32) as u16) < 1024) by (bit_vector);
    assert((((#[verifier::truncate]
    (((key & 0xfe00_0000u32) >> 25) as u8)) as u32 & 0x7f) << 25) | (((#[verifier::truncate]
    (((key & 0x01f0_0000u32) >> 20) as u8)) as u32 & 0x1f) << 20) | (((#[verifier::truncate]
    (((key & 0x000f_fc00u32) >> 10) as u16)) as u32 & 0x3ff) << 10) | ((#[verifier::truncate]
    ((key & 0x0000_03ffu32) as u16)) as u32 & 0x3ff) == key) by (bit_vector);
}

/// A draw request that can be told apart from requests of another kind of
/// draw call.
pub trait Command: Clone {
    /// Whether two commands can be served by one draw call.
    spec fn compatible(&self, other: &Self) -> bool;

    fn is_compatible(&self, other: &Self) -> (compatible: bool)
        ensures
            compatible == self.compatible(other),
    ;
}

/// A group of commands that one instanced draw call serves.
///
/// The three spec functions describe, over views, what `new` and
/// `add_command` do; the queue's contracts are stated through them.
pub trait Batch<T: Command>: Sized + View {
    /// The batch that a first command opens.
    spec fn opened(first_command: T) -> Self::V;

    /// Whether `command` belongs to `batch`.
    spec fn accepts(batch: Self::V, command: T) -> bool;

    /// `batch` after it took `command`, which it accepts.
    spec fn added(batch: Self::V, command: T) -> Self::V;

    fn new(first_command: T) -> (batch: Self)
        ensures
            batch@ == Self::opened(first_command),
    ;

    /// Takes `command` if it belongs to the batch and says whether it did.
    fn add_command(&mut self, command: &T) -> (taken: bool)
        ensures
            taken == Self::accepts(old(self)@, *command),
            final(self)@ == if taken {
                Self::added(old(self)@, *command)
            } else {
                old(self)@
            },
    ;
}

impl Command for RenderMeshCommand {
    open spec fn compatible(&self, other: &Self) -> bool {
        self.mesh_type == other.mesh_type && self.material == other.material
    }

    fn is_compatible(&self, other: &Self) -> (compatible: bool) {
        self.mesh_type == other.mesh_type && self.material == other.material
    }
}

/// The instances of one mesh type and material that one draw call renders.
pub struct RenderBatch {
    pub object_indices: Vec<u32>,
    pub mesh_type: u16,
    pub material: u8,
}

/// A [`RenderBatch`] as a mathematical value.
pub struct RenderBatchView {
    pub object_indices: Seq<u32>,
    pub mesh_type: u16,
    pub material: u8,
}

impl View for RenderBatch {
    type V = RenderBatchView;

    open spec fn view(&self) -> RenderBatchView {
        RenderBatchView {
            object_indices: self.object_indices@,
            mesh_type: self.mesh_type,
            material: self.material,
        }
    }
}

/// Whether `value` occurs in `values`.
pub fn contains_index(values: &Vec<u32>, value: u32) -> (found: bool)
    ensures
        found == values@.contains(value),
{
    let mut i: usize = 0;
    while i < values.len()
        invariant
            i <= values.len(),
            forall|j: int| 0 <= j < i ==> values@[j] != value,
        decreases values.len() - i,
    {
        if values[i] == value {
            return true;
        }
        i += 1;
    }
    false
}

impl Batch<RenderMeshCommand> for RenderBatch {
    open spec fn opened(first_command: RenderMeshCommand) -> RenderBatchView {
        RenderBatchView {
            object_indices: seq![first_command.object_index as u32],
            mesh_type: first_command.mesh_type as u16,
            material: first_command.material,
        }
    }

    open spec fn accepts(batch: RenderBatchView, command: RenderMeshCommand) -> bool {
        command.mesh_type == #[verifier::truncate]
        (batch.mesh_type as u8) && command.material == batch.material
    }

    open spec fn added(batch: RenderBatchView, command: RenderMeshCommand) -> RenderBatchView {
        if batch.object_indices.contains(command.object_index as u32) {
            batch
        } else {
            RenderBatchView {
                object_indices: batch.object_indices.push(command.object_index as u32),
                mesh_type: batch.mesh_type,
                material: batch.material,
            }
        }
    }

    fn new(first_command: RenderMeshCommand) -> (batch: Self) {
        let batch = RenderBatch {
            object_indices: vec![first_command.object_index as u32],
            mesh_type: first_command.mesh_type as u16,
            material: first_command.material,
        };
        assert(batch@.object_indices =~= seq![first_command.object_index as u32]);
        batch
    }

    /// Takes the command's object index, unless the batch has it already,
    /// if the command is of the batch's mesh type and material.
    fn add_command(&mut self, command: &RenderMeshCommand) -> (taken: bool) {
        if command.mesh_type == #[verifier::truncate]
        (self.mesh_type as u8) && command.material == self.material {
            if !contains_index(&self.object_indices, command.object_index as u32) {
                self.object_indices.push(command.object_index as u32);
            }
            true
        } else {
            false
        }
    }
}

/// No key is followed by a smaller one.
pub open spec fn ascending(keys: Seq<u32>) -> bool {
    forall|i: int, j: int| 0 <= i <= j < keys.len() ==> keys[i] <= keys[j]
}

/// The batch built from the `taken` largest keys of `keys`, for `taken >= 1`:
/// the largest key opens it and the others are added from the top down.
pub open spec fn batch_after<T: From<u32> + Into<u32> + Command, B: Batch<T>>(
    keys: Seq<u32>,
    taken: nat,
) -> B::V
    decreases taken,
{
    if taken <= 1 {
        B::opened(T::from_spec(keys.last()))
    } else {
        B::added(
            batch_after::<T, B>(keys, (taken - 1) as nat),
            T::from_spec(keys[keys.len() - taken]),
        )
    }
}

/// How many keys the next batch takes in the end, when the `taken` largest
/// are already in it: keys join from the top down until one is refused.
pub open spec fn batch_extent<T: From<u32> + Into<u32> + Command, B: Batch<T>>(
    keys: Seq<u32>,
    taken: nat,
) -> nat
    decreases keys.len() - taken,
{
    if taken >= keys.len() {
        taken
    } else if B::accepts(
        batch_after::<T, B>(keys, taken),
        T::from_spec(keys[keys.len() - taken - 1]),
    ) {
        batch_extent::<T, B>(keys, taken + 1)
    } else {
        taken
    }
}

/// Number of keys that the next batch takes from a non-empty queue.
pub open spec fn next_batch_len<T: From<u32> + Into<u32> + Command, B: Batch<T>>(
    keys: Seq<u32>,
) -> nat {
    batch_extent::<T, B>(keys, 1)
}

/// The next batch of a non-empty queue.
pub open spec fn next_batch<T: From<u32> + Into<u32> + Command, B: Batch<T>>(
    keys: Seq<u32>,
) -> B::V {
    batch_after::<T, B>(keys, next_batch_len::<T, B>(keys))
}

/// The next batch takes at least the largest key and never more keys than
/// there are.
pub proof fn lemma_batch_extent_bounds<T: From<u32> + Into<u32> + Command, B: Batch<T>>(
    keys: Seq<u32>,
    taken: nat,
)
    requires
        taken <= keys.len(),
    ensures
        taken <= batch_extent::<T, B>(keys, taken) <= keys.len(),
    decreases keys.len() - taken,
{
    if taken < keys.len() && B::accepts(
        batch_after::<T, B>(keys, taken),
        T::from_spec(keys[keys.len() - taken - 1]),
    ) {
        lemma_batch_extent_bounds::<T, B>(keys, taken + 1);
    }
}

/// The batches that draining a queue yields, in the order in which they come
/// out.
pub open spec fn drained<T: From<u32> + Into<u32> + Command, B: Batch<T>>(keys: Seq<u32>) -> Seq<
    B::V,
>
    decreases keys.len(),
{
    if keys.len() == 0 {
        Seq::empty()
    } else {
        proof {
            lemma_batch_extent_bounds::<T, B>(keys, 1);
        }
        seq![next_batch::<T, B>(keys)] + drained::<T, B>(
            keys.take(keys.len() - next_batch_len::<T, B>(keys)),
        )
    }
}

/// Pending draw commands, kept as packed keys in ascending order. The
/// largest key is drained first.
///
/// The contracts speak of commands through `T::from_spec` and
/// `command.into_spec()`, that is of what `From<u32>` and `Into<u32>` are
/// specified to do for `T`. They say nothing of a command type that leaves
/// its conversions unspecified (`obeys_from_spec`, `obeys_into_spec`).
pub struct CommandQueue<T: From<u32> + Into<u32> + Command, B: Batch<T>> {
    queue: Vec<u32>,
    _marker_command: PhantomData<T>,
    _marker_batch: PhantomData<B>,
}

impl<T: From<u32> + Into<u32> + Command, B: Batch<T>> View for CommandQueue<T, B> {
    type V = Seq<u32>;

    /// The pending keys, smallest first.
    closed spec fn view(&self) -> Seq<u32> {
        self.queue@
    }
}

impl<T: From<u32> + Into<u32> + Command, B: Batch<T>> CommandQueue<T, B> {
    /// The pending keys are in ascending order. `new` establishes this and
    /// every method keeps it.
    pub open spec fn wf(&self) -> bool {
        ascending(self@)
    }

    /// A queue with nothing pending.
    pub fn new() -> (queue: Self)
        ensures
            queue.wf(),
            queue@ == Seq::<u32>::empty(),
    {
        CommandQueue { queue: Vec::new(), _marker_command: PhantomData, _marker_batch: PhantomData }
    }

    /// Number of pending commands.
    pub fn len(&self) -> (n: usize)
        ensures
            n == self@.len(),
    {
        self.queue.len()
    }

    /// Adds the key of `command` to the pending ones. Which keys are
    /// pending afterwards does not depend on the order in which they were
    /// enqueued.
    pub fn enqueue_command(&mut self, command: T)
        requires
            old(self).wf(),
        ensures
            final(self).wf(),
            T::obeys_into_spec() ==> final(self)@.to_multiset() == old(self)@.to_multiset().insert(
                command.into_spec(),
            ),
            final(self)@.len() == old(self)@.len() + 1,
    {
        let key: u32 = command.into();
        let mut at: usize = self.queue.len();
        while at > 0 && self.queue[at - 1] > key
            invariant
                at <= self.queue.len(),
                self.queue@ == old(self).queue@,
                forall|j: int| at <= j < self.queue.len() ==> self.queue@[j] > key,
            decreases at,
        {
            at -= 1;
        }
        proof {
            to_multiset_insert(self.queue@, at as int, key);
        }
        self.queue.insert(at, key);
    }

    /// Removes the largest key and returns its command.
    pub fn pop_command(&mut self) -> (command: Option<T>)
        requires
            old(self).wf(),
        ensures
            final(self).wf(),
            old(self)@.len() == 0 ==> command.is_none() && final(self)@ == old(self)@,
            old(self)@.len() > 0 ==> final(self)@ == old(self)@.drop_last() && command.is_some()
                && (T::obeys_from_spec() ==> command == Some(T::from_spec(old(self)@.last()))),
    {
        match self.queue.pop() {
            Some(key) => Some(T::from(key)),
            None => None,
        }
    }

    /// Removes the commands of the next batch and returns the batch, or
    /// `None` when nothing is pending.
    ///
    /// The largest key opens the batch. Further keys join it from the top
    /// down for as long as the batch accepts them; the first one that is
    /// refused stays at the top of the queue, with everything below it.
    pub fn pop_next_batch(&mut self) -> (batch: Option<B>)
        requires
            old(self).wf(),
        ensures
            final(self).wf(),
            old(self)@.len() == 0 ==> batch.is_none() && final(self)@ == old(self)@,
            old(self)@.len() > 0 ==> batch.is_some() && final(self)@.len() < old(self)@.len()
                && final(self)@ == old(self)@.take(final(self)@.len() as int),
            old(self)@.len() > 0 && T::obeys_from_spec() ==> batch.unwrap()@ == next_batch::<T, B>(
                old(self)@,
            ) && final(self)@.len() == old(self)@.len() - next_batch_len::<T, B>(old(self)@),
    {
        let ghost keys = self.queue@;
        match self.queue.pop() {
            None => None,
            Some(first_key) => {
                let mut batch = B::new(T::from(first_key));
                let ghost mut taken: nat = 1;
                loop
                    invariant
                        keys == old(self).queue@,
                        1 <= taken <= keys.len(),
                        self.queue@ == keys.take(keys.len() - taken),
                        ascending(keys),
                        T::obeys_from_spec() ==> batch@ == batch_after::<T, B>(keys, taken),
                        T::obeys_from_spec() ==> batch_extent::<T, B>(keys, taken)
                            == next_batch_len::<T, B>(keys),
                    ensures
                        1 <= taken <= keys.len(),
                        self.queue@ == keys.take(keys.len() - taken),
                        T::obeys_from_spec() ==> batch@ == batch_after::<T, B>(keys, taken),
                        T::obeys_from_spec() ==> taken == next_batch_len::<T, B>(keys),
                    decreases self.queue.len(),
                {
                    let n = self.queue.len();
                    if n == 0 {
                        break ;
                    }
                    let command = T::from(self.queue[n - 1]);
                    if batch.add_command(&command) {
                        self.queue.pop();
                        proof {
                            taken = taken + 1;
                        }
                    } else {
                        break ;
                    }
                }
                Some(batch)
            },
        }
    }

    /// Removes everything that is pending and returns it as batches, in the
    /// order in which `pop_next_batch` hands them out.
    pub fn drain(&mut self) -> (batches: Vec<B>)
        requires
            old(self).wf(),
        ensures
            final(self).wf(),
            final(self)@.len() == 0,
            T::obeys_from_spec() ==> batches@.len() == drained::<T, B>(old(self)@).len(),
            T::obeys_from_spec() ==> forall|i: int|
                0 <= i < batches@.len() ==> (#[trigger] batches@[i])@ == drained::<T, B>(
                    old(self)@,
                )[i],
    {
        let mut batches: Vec<B> = Vec::new();
        let ghost mut done: Seq<B::V> = Seq::empty();
        loop
            invariant
                self.wf(),
                done.len() == batches@.len(),
                forall|i: int| 0 <= i < batches@.len() ==> (#[trigger] batches@[i])@ == done[i],
                T::obeys_from_spec() ==> drained::<T, B>(old(self)@) =~= done + drained::<T, B>(
                    self@,
                ),
            ensures
                self.wf(),
                self@.len() == 0,
                done.len() == batches@.len(),
                forall|i: int| 0 <= i < batches@.len() ==> (#[trigger] batches@[i])@ == done[i],
                T::obeys_from_spec() ==> drained::<T, B>(old(self)@) =~= done,
            decreases self@.len(),
        {
            let ghost before = self@;
            match self.pop_next_batch() {
                None => {
                    break ;
                },
                Some(batch) => {
                    proof {
                        lemma_batch_extent_bounds::<T, B>(before, 1);
                        done = done.push(batch@);
                        if T::obeys_from_spec() {
                            assert(self@ == before.take(
                                before.len() - next_batch_len::<T, B>(before),
                            ));
                            assert(drained::<T, B>(before) =~= seq![batch@] + drained::<T, B>(
                                self@,
                            ));
                        }
                    }
                    batches.push(batch);
                },
            }
        }
        batches
    }
}

/// Distinct values below a bound are at most as many as the bound.
pub proof fn lemma_distinct_below(values: Seq<u32>, bound: nat)
    requires
        values.no_duplicates(),
        forall|i: int| 0 <= i < values.len() ==> #[trigger] values[i] < bound,
    ensures
        values.len() <= bound,
{
    let numbers = values.map_values(|value: u32| value as int);
    let all = set_int_range(0, bound as int);
    assert(numbers.no_duplicates()) by {
        assert forall|i: int, j: int|
            0 <= i < numbers.len() && 0 <= j < numbers.len() && i != j implies numbers[i]
            != numbers[j] by {
            assert(values[i] != values[j]);
        }
    }
    numbers.unique_seq_to_set();
    lemma_int_range(0, bound as int);
    assert(numbers.to_set().subset_of(all)) by {
        assert forall|number: int| numbers.to_set().contains(number) implies all.contains(
            number,
        ) by {
            let i = choose|i: int| 0 <= i < numbers.len() && numbers[i] == number;
            assert(values[i] < bound);
        }
    }
    lemma_len_subset(numbers.to_set(), all);
}

} // verus!
