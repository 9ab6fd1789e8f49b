//! Generational resource tables: pooled objects are named by handles, never
//! by reference.
//!
//! A handle is a slot index and the generation of the slot at the time the
//! entry was added. Removing an entry advances the slot's generation, so a
//! handle that was kept beyond the life of its entry is refused instead of
//! naming whatever took the slot over.

use crate::error::RenderError;
use std::marker::PhantomData;
use vstd::prelude::*;

verus! {

/// Names an entry of a [`HandleTable`] of `T`.
pub struct Handle<T> {
    pub index: usize,
    pub generation: u64,
    pub marker: PhantomData<T>,
}

impl<T> Clone for Handle<T> {
    fn clone(&self) -> (copy: Self)
        ensures
            copy == *self,
    {
        Handle { index: self.index, generation: self.generation, marker: PhantomData }
    }
}

impl<T> Copy for Handle<T> {

}

impl<T> Handle<T> {
    /// The handle of the given slot and generation.
    pub open spec fn of(index: usize, generation: u64) -> Self {
        Handle { index, generation, marker: PhantomData }
    }

    /// A handle from its parts, as read from another handle. Whether it
    /// names anything is for the table to say.
    pub fn from_parts(index: usize, generation: u64) -> (handle: Self)
        ensures
            handle == Self::of(index, generation),
    {
        Handle { index, generation, marker: PhantomData }
    }
}

/// A [`HandleTable`] as a mathematical value.
pub struct TableView<T> {
    /// The current generation of every slot.
    pub generations: Seq<u64>,
    /// The entry of every slot, `None` where the slot is vacant.
    pub values: Seq<Option<T>>,
    /// The vacant slots that can be given out again; the last one is taken
    /// first.
    pub free: Seq<usize>,
}

impl<T> TableView<T> {
    /// Every slot has a generation, and the free stack names vacant slots,
    /// each at most once.
    pub open spec fn wf(self) -> bool {
        &&& self.generations.len() == self.values.len()
        &&& self.free.no_duplicates()
        &&& forall|i: int|
            0 <= i < self.free.len() ==> (#[trigger] self.free[i]) < self.values.len()
                && self.values[self.free[i] as int].is_none()
    }

    /// The handle names a live entry.
    pub open spec fn contains(self, handle: Handle<T>) -> bool {
        &&& handle.index < self.values.len()
        &&& self.generations[handle.index as int] == handle.generation
        &&& self.values[handle.index as int].is_some()
    }

    /// The entry that a live handle names.
    pub open spec fn value_of(self, handle: Handle<T>) -> T {
        self.values[handle.index as int].unwrap()
    }

    /// The handle can never name an entry again: its slot has moved on to a
    /// later generation, or has been retired.
    pub open spec fn is_stale(self, handle: Handle<T>) -> bool {
        &&& handle.index < self.values.len()
        &&& handle.generation < self.generations[handle.index as int] || (
        self.values[handle.index as int].is_none() && !self.free.contains(handle.index))
    }

    /// The handle that the next `add_entry` returns.
    pub open spec fn next_handle(self) -> Handle<T> {
        if self.free.len() > 0 {
            Handle::of(self.free.last(), self.generations[self.free.last() as int])
        } else {
            Handle::of(self.values.len() as usize, 0)
        }
    }

    /// This table after `add_entry(value)`.
    pub open spec fn added(self, value: T) -> TableView<T> {
        if self.free.len() > 0 {
            TableView {
                generations: self.generations,
                values: self.values.update(self.free.last() as int, Some(value)),
                free: self.free.drop_last(),
            }
        } else {
            TableView {
                generations: self.generations.push(0),
                values: self.values.push(Some(value)),
                free: self.free,
            }
        }
    }

    /// This table after the entry of the live handle `handle` was removed.
    /// The slot moves on to the next generation and becomes free; a slot
    /// that has no next generation is retired for good.
    pub open spec fn removed(self, handle: Handle<T>) -> TableView<T> {
        if handle.generation < u64::MAX {
            TableView {
                generations: self.generations.update(
                    handle.index as int,
                    (handle.generation + 1) as u64,
                ),
                values: self.values.update(handle.index as int, None),
                free: self.free.push(handle.index),
            }
        } else {
            TableView {
                generations: self.generations,
                values: self.values.update(handle.index as int, None),
                free: self.free,
            }
        }
    }
}

/// Adding an entry makes exactly one handle live, a fresh one: it was
/// neither live nor stale before. Every other handle names what it named,
/// and what was stale stays stale.
pub proof fn lemma_added<T>(table: TableView<T>, value: T)
    requires
        table.wf(),
        table.free.len() > 0 || table.values.len() < usize::MAX,
    ensures
        table.added(value).wf(),
        !table.contains(table.next_handle()),
        !table.is_stale(table.next_handle()),
        table.added(value).contains(table.next_handle()),
        table.added(value).value_of(table.next_handle()) == value,
        forall|other: Handle<T>|
            other != table.next_handle() ==> (#[trigger] table.added(value).contains(other)
                == table.contains(other)),
        forall|other: Handle<T>| #[trigger]
            table.contains(other) ==> table.added(value).value_of(other) == table.value_of(other),
        forall|other: Handle<T>| #[trigger]
            table.is_stale(other) ==> table.added(value).is_stale(other),
{
    let after = table.added(value);
    let handle = table.next_handle();
    if table.free.len() > 0 {
        let index = table.free.last();
        assert(table.free[table.free.len() - 1] == index);
        assert(table.free.contains(index));
        assert forall|i: int| 0 <= i < after.free.len() implies (#[trigger] after.free[i])
            < after.values.len() && after.values[after.free[i] as int].is_none() by {
            assert(table.free[i] == after.free[i]);
            assert(table.free[i] != table.free[table.free.len() - 1]);
        }
        assert forall|other: Handle<T>| #[trigger] table.is_stale(other) implies after.is_stale(
            other,
        ) by {
            if after.free.contains(other.index) {
                let i = choose|i: int| 0 <= i < after.free.len() && after.free[i] == other.index;
                assert(table.free[i] == other.index);
            }
        }
    } else {
        assert forall|other: Handle<T>| #[trigger] table.is_stale(other) implies after.is_stale(
            other,
        ) by {}
    }
}

/// Removing the entry of a live handle makes that handle stale and leaves
/// every other handle as it was; what was stale stays stale.
pub proof fn lemma_removed<T>(table: TableView<T>, handle: Handle<T>)
    requires
        table.wf(),
        table.contains(handle),
    ensures
        table.removed(handle).wf(),
        !table.removed(handle).contains(handle),
        table.removed(handle).is_stale(handle),
        forall|other: Handle<T>|
            other != handle ==> (#[trigger] table.removed(handle).contains(other)
                == table.contains(other)),
        forall|other: Handle<T>|
            other != handle && #[trigger] table.contains(other) ==> table.removed(handle).value_of(
                other,
            ) == table.value_of(other),
        forall|other: Handle<T>| #[trigger]
            table.is_stale(other) ==> table.removed(handle).is_stale(other),
{
    let after = table.removed(handle);
    assert(!table.free.contains(handle.index)) by {
        if table.free.contains(handle.index) {
            let i = choose|i: int| 0 <= i < table.free.len() && table.free[i] == handle.index;
            assert(table.values[table.free[i] as int].is_none());
        }
    }
    assert forall|i: int| 0 <= i < after.free.len() implies (#[trigger] after.free[i])
        < after.values.len() && after.values[after.free[i] as int].is_none() by {
        if i < table.free.len() {
            assert(table.free[i] == after.free[i]);
        }
    }
    assert forall|other: Handle<T>| #[trigger] table.is_stale(other) implies after.is_stale(
        other,
    ) by {
        if after.free.contains(other.index) && other.index != handle.index {
            let i = choose|i: int| 0 <= i < after.free.len() && after.free[i] == other.index;
            assert(table.free[i] == other.index);
        }
    }
    assert forall|other: Handle<T>| other != handle implies (#[trigger] after.contains(other)
        == table.contains(other)) by {
        if other.index == handle.index {
            assert(other.generation != handle.generation);
        }
    }
}

/// Pooled objects of one kind, each named by the handle that `add_entry`
/// returned for it.
pub struct HandleTable<T> {
    generations: Vec<u64>,
    values: Vec<Option<T>>,
    free: Vec<usize>,
}

impl<T> View for HandleTable<T> {
    type V = TableView<T>;

    closed spec fn view(&self) -> TableView<T> {
        TableView { generations: self.generations@, values: self.values@, free: self.free@ }
    }
}

impl<T> HandleTable<T> {
    /// The table's invariant. `new` establishes it and every method keeps
    /// it.
    pub open spec fn wf(&self) -> bool {
        self@.wf()
    }

    /// An empty table.
    pub fn new() -> (table: Self)
        ensures
            table.wf(),
            table@.values.len() == 0,
            table@.free.len() == 0,
    {
        HandleTable { generations: Vec::new(), values: Vec::new(), free: Vec::new() }
    }

    /// Number of slots, live or not.
    pub fn slot_count(&self) -> (count: usize)
        ensures
            count == self@.values.len(),
    {
        self.values.len()
    }

    /// Whether the handle names a live entry.
    pub fn contains(&self, handle: &Handle<T>) -> (live: bool)
        requires
            self.wf(),
        ensures
            live == self@.contains(*handle),
    {
        handle.index < self.values.len() && self.generations[handle.index] == handle.generation
            && self.values[handle.index].is_some()
    }

    /// Stores `value` and returns its handle. A free slot is taken where
    /// there is one, the most recently freed first; else the table grows by
    /// a slot.
    ///
    /// Fails with `PoolExhausted`, and changes nothing, exactly when there
    /// is no free slot and no further slot index.
    pub fn add_entry(&mut self, value: T) -> (result: Result<Handle<T>, RenderError>)
        requires
            old(self).wf(),
        ensures
            final(self).wf(),
            match result {
                Ok(handle) => {
                    &&& old(self)@.free.len() > 0 || old(self)@.values.len() < usize::MAX
                    &&& handle == old(self)@.next_handle()
                    &&& final(self)@ == old(self)@.added(value)
                },
                Err(error) => {
                    &&& error == RenderError::PoolExhausted
                    &&& old(self)@.free.len() == 0
                    &&& old(self)@.values.len() == usize::MAX
                    &&& final(self)@ == old(self)@
                },
            },
    {
        match self.free.pop() {
            Some(index) => {
                let ghost before = old(self)@;
                assert(before.free[before.free.len() - 1] == index);
                let generation = self.generations[index];
                self.values[index] = Some(value);
                proof {
                    assert(self@.values =~= before.values.update(index as int, Some(value)));
                    assert(self@.free =~= before.free.drop_last());
                    assert(self@ == before.added(value));
                    assert forall|i: int| 0 <= i < self@.free.len() implies (
                    #[trigger] self@.free[i]) < self@.values.len()
                        && self@.values[self@.free[i] as int].is_none() by {
                        assert(before.free[i] == self@.free[i]);
                        assert(before.free[i] != before.free[before.free.len() - 1]);
                    }
                }
                Ok(Handle { index, generation, marker: PhantomData })
            },
            None => {
                let index = self.values.len();
                if index == usize::MAX {
                    return Err(RenderError::PoolExhausted);
                }
                self.generations.push(0);
                self.values.push(Some(value));
                proof {
                    assert(self@ == old(self)@.added(value));
                }
                Ok(Handle { index, generation: 0, marker: PhantomData })
            },
        }
    }

    /// The entry that `handle` names. Fails with `InvalidHandle` exactly
    /// when the handle names no live entry: it was never given out by this
    /// table, or its entry has been removed.
    pub fn get(&self, handle: &Handle<T>) -> (result: Result<&T, RenderError>)
        requires
            self.wf(),
        ensures
            match result {
                Ok(value) => self@.contains(*handle) && *value == self@.value_of(*handle),
                Err(error) => error == RenderError::InvalidHandle && !self@.contains(*handle),
            },
    {
        if handle.index >= self.values.len() || self.generations[handle.index]
            != handle.generation {
            return Err(RenderError::InvalidHandle);
        }
        match &self.values[handle.index] {
            Some(value) => Ok(value),
            None => Err(RenderError::InvalidHandle),
        }
    }

    /// Takes the entry that `handle` names out of the table. From then on
    /// the handle is refused. Fails with `InvalidHandle`, and changes
    /// nothing, exactly when the handle names no live entry.
    pub fn remove(&mut self, handle: &Handle<T>) -> (result: Result<T, RenderError>)
        requires
            old(self).wf(),
        ensures
            final(self).wf(),
            match result {
                Ok(value) => {
                    &&& old(self)@.contains(*handle)
                    &&& value == old(self)@.value_of(*handle)
                    &&& final(self)@ == old(self)@.removed(*handle)
                },
                Err(error) => {
                    &&& error == RenderError::InvalidHandle
                    &&& !old(self)@.contains(*handle)
                    &&& final(self)@ == old(self)@
                },
            },
    {
        if handle.index >= self.values.len() || self.generations[handle.index]
            != handle.generation {
            return Err(RenderError::InvalidHandle);
        }
        let index = handle.index;
        match self.values[index].take() {
            None => {
                assert(self@.values =~= old(self)@.values);
                Err(RenderError::InvalidHandle)
            },
            Some(value) => {
                if handle.generation < u64::MAX {
                    self.generations[index] = handle.generation + 1;
                    self.free.push(index);
                }
                proof {
                    lemma_removed(old(self)@, *handle);
                    assert(self@.values =~= old(self)@.values.update(index as int, None));
                    assert(self@.generations =~= old(self)@.removed(*handle).generations);
                    assert(self@ == old(self)@.removed(*handle));
                }
                Ok(value)
            },
        }
    }
}

} // verus!
