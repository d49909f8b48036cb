//! Walking the implementors of one entity: the references that a walk
//! yields, and the iterators that yield them.

use crate::fetch::Mut;
use crate::fetch::Place;
use crate::fetch::Ticks;
use crate::fetch::TraitRef;
use crate::registry::Registration;
use crate::registry::StorageType;
use crate::registry::TraitImplMeta;
use crate::storage::sparse_set_contains;
use crate::storage::sparse_set_of;
use crate::storage::sparse_sets_members;
use crate::storage::table_columns;
use crate::storage::table_has_column;
use crate::storage::unaliased;
use bevy::ecs::storage::SparseSets;
use bevy::ecs::storage::Table;
use vstd::prelude::*;

verus! {

/// The reference to a table component's value at a row.
pub open spec fn table_ref<Ctor>(
    component: usize,
    meta: TraitImplMeta<Ctor>,
    row: usize,
) -> TraitRef<Ctor> {
    TraitRef {
        component,
        place: Place::Table { row, byte_offset: (row * meta.size_bytes) as usize },
        dyn_ctor: meta.dyn_ctor,
    }
}

/// The reference to a sparse-set component's value under an entity.
pub open spec fn sparse_ref<Ctor>(
    component: usize,
    meta: TraitImplMeta<Ctor>,
    entity: u64,
) -> TraitRef<Ctor> {
    TraitRef { component, place: Place::SparseSet { entity }, dyn_ctor: meta.dyn_ctor }
}

/// Whether the component has a sparse set with the entity in it.
pub open spec fn sparse_holds(members: Map<usize, Set<u64>>, component: usize, entity: u64) -> bool {
    members.contains_key(component) && members[component].contains(entity)
}

/// The references to the values at a row of those components, from position
/// `from` on, that have a column in the table: in the components' order.
pub open spec fn table_refs<Ctor>(
    components: Seq<usize>,
    metas: Seq<TraitImplMeta<Ctor>>,
    columns: Set<usize>,
    row: usize,
    from: int,
) -> Seq<TraitRef<Ctor>>
    decreases components.len() - from,
{
    if from < 0 || from >= components.len() {
        Seq::empty()
    } else if columns.contains(components[from]) {
        seq![table_ref(components[from], metas[from], row)] + table_refs(
            components,
            metas,
            columns,
            row,
            from + 1,
        )
    } else {
        table_refs(components, metas, columns, row, from + 1)
    }
}

/// The references to the values under an entity of those components, from
/// position `from` on, whose sparse set holds the entity: in the components'
/// order.
pub open spec fn sparse_refs<Ctor>(
    components: Seq<usize>,
    metas: Seq<TraitImplMeta<Ctor>>,
    members: Map<usize, Set<u64>>,
    entity: u64,
    from: int,
) -> Seq<TraitRef<Ctor>>
    decreases components.len() - from,
{
    if from < 0 || from >= components.len() {
        Seq::empty()
    } else if sparse_holds(members, components[from], entity) {
        seq![sparse_ref(components[from], metas[from], entity)] + sparse_refs(
            components,
            metas,
            members,
            entity,
            from + 1,
        )
    } else {
        sparse_refs(components, metas, members, entity, from + 1)
    }
}

/// Whether a registered implementor is present on an entity: a table
/// component by its column in the entity's table, a sparse-set component by
/// the entity's membership in its set.
pub open spec fn is_present<Ctor>(
    entry: Registration<Ctor>,
    columns: Set<usize>,
    members: Map<usize, Set<u64>>,
    entity: u64,
) -> bool {
    match entry.storage {
        StorageType::Table => columns.contains(entry.component),
        StorageType::SparseSet => sparse_holds(members, entry.component, entity),
    }
}

/// How many of the registered implementors are present on an entity.
pub open spec fn present_count<Ctor>(
    entries: Seq<Registration<Ctor>>,
    columns: Set<usize>,
    members: Map<usize, Set<u64>>,
    entity: u64,
) -> nat
    decreases entries.len(),
{
    if entries.len() == 0 {
        0
    } else {
        present_count(entries.drop_last(), columns, members, entity) + if is_present(
            entries.last(),
            columns,
            members,
            entity,
        ) {
            1nat
        } else {
            0nat
        }
    }
}

/// The byte offset of the row fits the machine's word in every column the
/// table has for the components.
pub open spec fn rows_fit<Ctor>(
    components: Seq<usize>,
    metas: Seq<TraitImplMeta<Ctor>>,
    columns: Set<usize>,
    row: usize,
) -> bool {
    forall|i: int|
        0 <= i < components.len() && columns.contains(#[trigger] components[i]) ==> row
            * metas[i].size_bytes <= usize::MAX
}

/// No sparse set of the components holds the entity's index under another
/// generation.
pub open spec fn entity_current(
    components: Seq<usize>,
    members: Map<usize, Set<u64>>,
    entity: u64,
) -> bool {
    forall|i: int|
        0 <= i < components.len() && members.contains_key(#[trigger] components[i]) ==> unaliased(
            members[components[i]],
            entity,
        )
}

/// Walks the table components of a registry and yields a reference for each
/// that the table has a column for.
pub struct ReadTableTraitsIter<'a, Ctor> {
    components: &'a Vec<usize>,
    meta: &'a Vec<TraitImplMeta<Ctor>>,
    cursor: usize,
    table_row: usize,
    table: &'a Table,
}

impl<'a, Ctor: Copy> ReadTableTraitsIter<'a, Ctor> {
    /// The iterator's invariant.
    pub closed spec fn wf(&self) -> bool {
        &&& self.meta@.len() == self.components@.len()
        &&& self.cursor <= self.components@.len()
        &&& rows_fit(self.components@, self.meta@, table_columns(*self.table), self.table_row)
    }

    /// The references still to come.
    pub closed spec fn remaining(&self) -> Seq<TraitRef<Ctor>> {
        table_refs(
            self.components@,
            self.meta@,
            table_columns(*self.table),
            self.table_row,
            self.cursor as int,
        )
    }

    /// An iterator over the given components at a row of a table.
    pub fn new(
        components: &'a Vec<usize>,
        meta: &'a Vec<TraitImplMeta<Ctor>>,
        table: &'a Table,
        table_row: usize,
    ) -> (r: Self)
        requires
            meta@.len() == components@.len(),
            rows_fit(components@, meta@, table_columns(*table), table_row),
        ensures
            r.wf(),
            r.remaining() == table_refs(components@, meta@, table_columns(*table), table_row, 0),
    {
        ReadTableTraitsIter { components, meta, cursor: 0, table_row, table }
    }

    /// The next reference, if one is left.
    pub fn next(&mut self) -> (r: Option<TraitRef<Ctor>>)
        requires
            old(self).wf(),
        ensures
            final(self).wf(),
            match r {
                Some(item) => old(self).remaining() == seq![item] + final(self).remaining(),
                None => old(self).remaining().len() == 0 && final(self).remaining().len() == 0,
            },
    {
        while self.cursor < self.components.len()
            invariant
                self.wf(),
                self.remaining() == old(self).remaining(),
            decreases self.components@.len() - self.cursor,
        {
            let i = self.cursor;
            let component = self.components[i];
            self.cursor = i + 1;
            if table_has_column(self.table, component) {
                let meta = self.meta[i];
                return Some(
                    TraitRef {
                        component,
                        place: Place::Table {
                            row: self.table_row,
                            byte_offset: self.table_row * meta.size_bytes,
                        },
                        dyn_ctor: meta.dyn_ctor,
                    },
                );
            }
        }
        None
    }
}

/// Walks the sparse-set components of a registry and yields a reference for
/// each whose sparse set holds the entity.
pub struct ReadSparseTraitsIter<'a, Ctor> {
    components: &'a Vec<usize>,
    meta: &'a Vec<TraitImplMeta<Ctor>>,
    cursor: usize,
    entity: u64,
    sparse_sets: &'a SparseSets,
}

impl<'a, Ctor: Copy> ReadSparseTraitsIter<'a, Ctor> {
    /// The iterator's invariant.
    pub closed spec fn wf(&self) -> bool {
        &&& self.meta@.len() == self.components@.len()
        &&& self.cursor <= self.components@.len()
        &&& entity_current(self.components@, sparse_sets_members(*self.sparse_sets), self.entity)
    }

    /// The references still to come.
    pub closed spec fn remaining(&self) -> Seq<TraitRef<Ctor>> {
        sparse_refs(
            self.components@,
            self.meta@,
            sparse_sets_members(*self.sparse_sets),
            self.entity,
            self.cursor as int,
        )
    }

    /// An iterator over the given components under an entity.
    pub fn new(
        components: &'a Vec<usize>,
        meta: &'a Vec<TraitImplMeta<Ctor>>,
        sparse_sets: &'a SparseSets,
        entity: u64,
    ) -> (r: Self)
        requires
            meta@.len() == components@.len(),
            entity_current(components@, sparse_sets_members(*sparse_sets), entity),
        ensures
            r.wf(),
            r.remaining() == sparse_refs(
                components@,
                meta@,
                sparse_sets_members(*sparse_sets),
                entity,
                0,
            ),
    {
        ReadSparseTraitsIter { components, meta, cursor: 0, entity, sparse_sets }
    }

    /// The next reference, if one is left.
    pub fn next(&mut self) -> (r: Option<TraitRef<Ctor>>)
        requires
            old(self).wf(),
        ensures
            final(self).wf(),
            match r {
                Some(item) => old(self).remaining() == seq![item] + final(self).remaining(),
                None => old(self).remaining().len() == 0 && final(self).remaining().len() == 0,
            },
    {
        while self.cursor < self.components.len()
            invariant
                self.wf(),
                self.remaining() == old(self).remaining(),
            decreases self.components@.len() - self.cursor,
        {
            let i = self.cursor;
            let component = self.components[i];
            self.cursor = i + 1;
            if let Some(set) = sparse_set_of(self.sparse_sets, component) {
                if sparse_set_contains(set, self.entity) {
                    let meta = self.meta[i];
                    return Some(
                        TraitRef {
                            component,
                            place: Place::SparseSet { entity: self.entity },
                            dyn_ctor: meta.dyn_ctor,
                        },
                    );
                }
            }
        }
        None
    }
}

/// The exclusive reference that a shared one becomes under the ticks of a
/// query.
pub open spec fn with_ticks<Ctor>(refs: Seq<TraitRef<Ctor>>, ticks: Ticks) -> Seq<Mut<Ctor>> {
    Seq::new(refs.len(), |i: int| Mut { value: refs[i], ticks })
}

/// Walks the table components of a registry and yields an exclusive
/// reference for each that the table has a column for.
pub struct WriteTableTraitsIter<'a, Ctor> {
    refs: ReadTableTraitsIter<'a, Ctor>,
    ticks: Ticks,
}

impl<'a, Ctor: Copy> WriteTableTraitsIter<'a, Ctor> {
    /// The iterator's invariant.
    pub closed spec fn wf(&self) -> bool {
        self.refs.wf()
    }

    /// The references still to come.
    pub closed spec fn remaining(&self) -> Seq<Mut<Ctor>> {
        with_ticks(self.refs.remaining(), self.ticks)
    }

    /// An iterator over the given components at a row of a table.
    pub fn new(
        components: &'a Vec<usize>,
        meta: &'a Vec<TraitImplMeta<Ctor>>,
        table: &'a Table,
        table_row: usize,
        ticks: Ticks,
    ) -> (r: Self)
        requires
            meta@.len() == components@.len(),
            rows_fit(components@, meta@, table_columns(*table), table_row),
        ensures
            r.wf(),
            r.remaining() == with_ticks(
                table_refs(components@, meta@, table_columns(*table), table_row, 0),
                ticks,
            ),
    {
        WriteTableTraitsIter {
            refs: ReadTableTraitsIter::new(components, meta, table, table_row),
            ticks,
        }
    }

    /// The next reference, if one is left.
    pub fn next(&mut self) -> (r: Option<Mut<Ctor>>)
        requires
            old(self).wf(),
        ensures
            final(self).wf(),
            match r {
                Some(item) => old(self).remaining() == seq![item] + final(self).remaining(),
                None => old(self).remaining().len() == 0 && final(self).remaining().len() == 0,
            },
    {
        match self.refs.next() {
            Some(value) => {
                let item = Mut { value, ticks: self.ticks };
                proof {
                    assert(old(self).remaining() =~= seq![item] + self.remaining());
                }
                Some(item)
            },
            None => None,
        }
    }
}

/// Walks the sparse-set components of a registry and yields an exclusive
/// reference for each whose sparse set holds the entity.
pub struct WriteSparseTraitsIter<'a, Ctor> {
    refs: ReadSparseTraitsIter<'a, Ctor>,
    ticks: Ticks,
}

impl<'a, Ctor: Copy> WriteSparseTraitsIter<'a, Ctor> {
    /// The iterator's invariant.
    pub closed spec fn wf(&self) -> bool {
        self.refs.wf()
    }

    /// The references still to come.
    pub closed spec fn remaining(&self) -> Seq<Mut<Ctor>> {
        with_ticks(self.refs.remaining(), self.ticks)
    }

    /// An iterator over the given components under an entity.
    pub fn new(
        components: &'a Vec<usize>,
        meta: &'a Vec<TraitImplMeta<Ctor>>,
        sparse_sets: &'a SparseSets,
        entity: u64,
        ticks: Ticks,
    ) -> (r: Self)
        requires
            meta@.len() == components@.len(),
            entity_current(components@, sparse_sets_members(*sparse_sets), entity),
        ensures
            r.wf(),
            r.remaining() == with_ticks(
                sparse_refs(components@, meta@, sparse_sets_members(*sparse_sets), entity, 0),
                ticks,
            ),
    {
        WriteSparseTraitsIter {
            refs: ReadSparseTraitsIter::new(components, meta, sparse_sets, entity),
            ticks,
        }
    }

    /// The next reference, if one is left.
    pub fn next(&mut self) -> (r: Option<Mut<Ctor>>)
        requires
            old(self).wf(),
        ensures
            final(self).wf(),
            match r {
                Some(item) => old(self).remaining() == seq![item] + final(self).remaining(),
                None => old(self).remaining().len() == 0 && final(self).remaining().len() == 0,
            },
    {
        match self.refs.next() {
            Some(value) => {
                let item = Mut { value, ticks: self.ticks };
                proof {
                    assert(old(self).remaining() =~= seq![item] + self.remaining());
                }
                Some(item)
            },
            None => None,
        }
    }
}

/// The table implementors of an entity, then its sparse-set implementors.
pub struct CombinedReadTraitsIter<'a, Ctor> {
    table: ReadTableTraitsIter<'a, Ctor>,
    sparse: ReadSparseTraitsIter<'a, Ctor>,
}

impl<'a, Ctor: Copy> CombinedReadTraitsIter<'a, Ctor> {
    /// The iterator's invariant.
    pub closed spec fn wf(&self) -> bool {
        self.table.wf() && self.sparse.wf()
    }

    /// The references still to come.
    pub closed spec fn remaining(&self) -> Seq<TraitRef<Ctor>> {
        self.table.remaining() + self.sparse.remaining()
    }

    /// What the first iterator yields, then what the second does.
    pub fn new(table: ReadTableTraitsIter<'a, Ctor>, sparse: ReadSparseTraitsIter<'a, Ctor>) -> (r:
        Self)
        requires
            table.wf(),
            sparse.wf(),
        ensures
            r.wf(),
            r.remaining() == table.remaining() + sparse.remaining(),
    {
        CombinedReadTraitsIter { table, sparse }
    }

    /// The next reference, if one is left.
    pub fn next(&mut self) -> (r: Option<TraitRef<Ctor>>)
        requires
            old(self).wf(),
        ensures
            final(self).wf(),
            match r {
                Some(item) => old(self).remaining() == seq![item] + final(self).remaining(),
                None => old(self).remaining().len() == 0 && final(self).remaining().len() == 0,
            },
    {
        match self.table.next() {
            Some(item) => {
                proof {
                    assert(old(self).remaining() =~= seq![item] + self.remaining());
                }
                Some(item)
            },
            None => {
                let r = self.sparse.next();
                proof {
                    if let Some(item) = r {
                        assert(old(self).remaining() =~= seq![item] + self.remaining());
                    }
                }
                r
            },
        }
    }
}

/// The table implementors of an entity, then its sparse-set implementors,
/// each for exclusive use.
pub struct CombinedWriteTraitsIter<'a, Ctor> {
    table: WriteTableTraitsIter<'a, Ctor>,
    sparse: WriteSparseTraitsIter<'a, Ctor>,
}

impl<'a, Ctor: Copy> CombinedWriteTraitsIter<'a, Ctor> {
    /// The iterator's invariant.
    pub closed spec fn wf(&self) -> bool {
        self.table.wf() && self.sparse.wf()
    }

    /// The references still to come.
    pub closed spec fn remaining(&self) -> Seq<Mut<Ctor>> {
        self.table.remaining() + self.sparse.remaining()
    }

    /// What the first iterator yields, then what the second does.
    pub fn new(table: WriteTableTraitsIter<'a, Ctor>, sparse: WriteSparseTraitsIter<'a, Ctor>) -> (r:
        Self)
        requires
            table.wf(),
            sparse.wf(),
        ensures
            r.wf(),
            r.remaining() == table.remaining() + sparse.remaining(),
    {
        CombinedWriteTraitsIter { table, sparse }
    }

    /// The next reference, if one is left.
    pub fn next(&mut self) -> (r: Option<Mut<Ctor>>)
        requires
            old(self).wf(),
        ensures
            final(self).wf(),
            match r {
                Some(item) => old(self).remaining() == seq![item] + final(self).remaining(),
                None => old(self).remaining().len() == 0 && final(self).remaining().len() == 0,
            },
    {
        match self.table.next() {
            Some(item) => {
                proof {
                    assert(old(self).remaining() =~= seq![item] + self.remaining());
                }
                Some(item)
            },
            None => {
                let r = self.sparse.next();
                proof {
                    if let Some(item) = r {
                        assert(old(self).remaining() =~= seq![item] + self.remaining());
                    }
                }
                r
            },
        }
    }
}

} // verus!
