//! The query for every component of an entity that implements a trait.

use crate::access::admits_reads;
use crate::access::admits_writes;
use crate::access::archetype_declarable;
use crate::access::archetype_reads_declared;
use crate::access::archetype_writes_declared;
use crate::access::declarable;
use crate::access::declare_archetype_reads;
use crate::access::declare_archetype_writes;
use crate::access::declare_reads;
use crate::access::declare_writes;
use crate::access::reads_declared;
use crate::access::writes_declared;
use crate::access::ArchetypeAccess;
use crate::access::ComponentAccess;
use crate::fetch::Ticks;
use crate::fetch::TraitRef;
use crate::matching::any_match;
use crate::matching::decides;
use crate::matching::first_yes;
use crate::matching::match_count;
use crate::registry::components_of;
use crate::registry::copy_ids;
use crate::registry::meta_of;
use crate::registry::stored_as;
use crate::registry::StorageType;
use crate::registry::TraitImplRegistry;
use crate::storage::archetype_component_ids;
use crate::storage::archetype_entity_table_rows;
use crate::storage::archetype_rows;
use crate::storage::sparse_sets_members;
use crate::storage::table_columns;
use crate::storage::table_entities;
use crate::storage::table_entity;
use crate::storage::table_has_column;
use crate::storage::table_len;
use crate::walk::entity_current;
use crate::walk::rows_fit;
use crate::walk::sparse_refs;
use crate::walk::table_refs;
use crate::walk::with_ticks;
use crate::walk::CombinedReadTraitsIter;
use crate::walk::CombinedWriteTraitsIter;
use crate::walk::ReadSparseTraitsIter;
use crate::walk::ReadTableTraitsIter;
use crate::walk::WriteSparseTraitsIter;
use crate::walk::WriteTableTraitsIter;
use bevy::ecs::archetype::Archetype;
use bevy::ecs::storage::SparseSets;
use bevy::ecs::storage::Table;
use vstd::prelude::*;

verus! {

/// Adapter that asks for every component of an entity that implements a
/// trait.
pub struct All<T>(pub T);

/// The implementors of one entity, as a registry and the store describe
/// them: the table implementors in registration order, then the sparse-set
/// implementors in registration order.
pub open spec fn implementors<Ctor: Copy>(
    registry: &TraitImplRegistry<Ctor>,
    table: &Table,
    table_row: usize,
    sparse_sets: &SparseSets,
) -> Seq<TraitRef<Ctor>> {
    table_refs(
        components_of(stored_as(registry@.entries, StorageType::Table)),
        meta_of(stored_as(registry@.entries, StorageType::Table)),
        table_columns(*table),
        table_row,
        0,
    ) + sparse_refs(
        components_of(stored_as(registry@.entries, StorageType::SparseSet)),
        meta_of(stored_as(registry@.entries, StorageType::SparseSet)),
        sparse_sets_members(*sparse_sets),
        table_entities(*table)[table_row as int],
        0,
    )
}

/// Whether the implementors of the entity at a row can be walked: the row
/// is one of the table's, the byte offsets fit the machine's word, and the
/// entity at the row is in no sparse set under another generation.
pub open spec fn walkable<Ctor: Copy>(
    registry: &TraitImplRegistry<Ctor>,
    table: &Table,
    table_row: usize,
    sparse_sets: &SparseSets,
) -> bool {
    &&& registry.wf()
    &&& table_row < table_entities(*table).len()
    &&& rows_fit(
        components_of(stored_as(registry@.entries, StorageType::Table)),
        meta_of(stored_as(registry@.entries, StorageType::Table)),
        table_columns(*table),
        table_row,
    )
    &&& entity_current(
        components_of(stored_as(registry@.entries, StorageType::SparseSet)),
        sparse_sets_members(*sparse_sets),
        table_entities(*table)[table_row as int],
    )
}

/// Whether the row is one of the table's and its byte offset fits the
/// machine's word in every column the table has for the registry's table
/// components: what of `walkable` a caller can test.
pub fn is_walkable_row<Ctor: Copy>(
    registry: &TraitImplRegistry<Ctor>,
    table: &Table,
    table_row: usize,
) -> (r: bool)
    requires
        registry.wf(),
    ensures
        r == (table_row < table_entities(*table).len() && rows_fit(
            components_of(stored_as(registry@.entries, StorageType::Table)),
            meta_of(stored_as(registry@.entries, StorageType::Table)),
            table_columns(*table),
            table_row,
        )),
{
    if table_row >= table_len(table) {
        return false;
    }
    let components = registry.table_components();
    let metas = registry.table_meta();
    let mut i: usize = 0;
    while i < components.len()
        invariant
            i <= components@.len(),
            metas@.len() == components@.len(),
            components@ == components_of(stored_as(registry@.entries, StorageType::Table)),
            metas@ == meta_of(stored_as(registry@.entries, StorageType::Table)),
            forall|j: int|
                0 <= j < i && table_columns(*table).contains(#[trigger] components@[j])
                    ==> table_row * metas@[j].size_bytes <= usize::MAX,
        decreases components@.len() - i,
    {
        if table_has_column(table, components[i]) && table_row.checked_mul(
            metas[i].size_bytes,
        ).is_none() {
            proof {
                assert(table_columns(*table).contains(components@[i as int]));
            }
            return false;
        }
        i += 1;
    }
    true
}

/// Shared access to every component of one entity that implements a trait.
pub struct ReadTraits<'a, Ctor> {
    pub registry: &'a TraitImplRegistry<Ctor>,
    pub table: &'a Table,
    pub table_row: usize,
    pub sparse_sets: &'a SparseSets,
}

impl<'a, Ctor: Copy> ReadTraits<'a, Ctor> {
    /// The entity's implementors, walked anew each time.
    pub fn iter(&self) -> (r: CombinedReadTraitsIter<'a, Ctor>)
        requires
            walkable(self.registry, self.table, self.table_row, self.sparse_sets),
        ensures
            r.wf(),
            r.remaining() == implementors(
                self.registry,
                self.table,
                self.table_row,
                self.sparse_sets,
            ),
    {
        let table = ReadTableTraitsIter::new(
            self.registry.table_components(),
            self.registry.table_meta(),
            self.table,
            self.table_row,
        );
        let sparse = ReadSparseTraitsIter::new(
            self.registry.sparse_components(),
            self.registry.sparse_meta(),
            self.sparse_sets,
            table_entity(self.table, self.table_row),
        );
        CombinedReadTraitsIter::new(table, sparse)
    }

    /// The entity's implementors.
    pub fn into_iter(self) -> (r: CombinedReadTraitsIter<'a, Ctor>)
        requires
            walkable(self.registry, self.table, self.table_row, self.sparse_sets),
        ensures
            r.wf(),
            r.remaining() == implementors(
                self.registry,
                self.table,
                self.table_row,
                self.sparse_sets,
            ),
    {
        self.iter()
    }
}

/// Exclusive access to every component of one entity that implements a
/// trait.
pub struct WriteTraits<'a, Ctor> {
    pub registry: &'a TraitImplRegistry<Ctor>,
    pub table: &'a Table,
    pub table_row: usize,
    pub ticks: Ticks,
    pub sparse_sets: &'a SparseSets,
}

impl<'a, Ctor: Copy> WriteTraits<'a, Ctor> {
    /// The entity's implementors for shared use, walked anew each time.
    pub fn iter(&self) -> (r: CombinedReadTraitsIter<'a, Ctor>)
        requires
            walkable(self.registry, self.table, self.table_row, self.sparse_sets),
        ensures
            r.wf(),
            r.remaining() == implementors(
                self.registry,
                self.table,
                self.table_row,
                self.sparse_sets,
            ),
    {
        let table = ReadTableTraitsIter::new(
            self.registry.table_components(),
            self.registry.table_meta(),
            self.table,
            self.table_row,
        );
        let sparse = ReadSparseTraitsIter::new(
            self.registry.sparse_components(),
            self.registry.sparse_meta(),
            self.sparse_sets,
            table_entity(self.table, self.table_row),
        );
        CombinedReadTraitsIter::new(table, sparse)
    }

    /// The entity's implementors for exclusive use, walked anew each time.
    pub fn iter_mut(&mut self) -> (r: CombinedWriteTraitsIter<'a, Ctor>)
        requires
            walkable(old(self).registry, old(self).table, old(self).table_row, old(self).sparse_sets),
        ensures
            *final(self) == *old(self),
            r.wf(),
            r.remaining() == with_ticks(
                implementors(
                    old(self).registry,
                    old(self).table,
                    old(self).table_row,
                    old(self).sparse_sets,
                ),
                old(self).ticks,
            ),
    {
        let table = WriteTableTraitsIter::new(
            self.registry.table_components(),
            self.registry.table_meta(),
            self.table,
            self.table_row,
            self.ticks,
        );
        let sparse = WriteSparseTraitsIter::new(
            self.registry.sparse_components(),
            self.registry.sparse_meta(),
            self.sparse_sets,
            table_entity(self.table, self.table_row),
            self.ticks,
        );
        let r = CombinedWriteTraitsIter::new(table, sparse);
        proof {
            assert(r.remaining() =~= with_ticks(
                implementors(self.registry, self.table, self.table_row, self.sparse_sets),
                self.ticks,
            ));
        }
        r
    }

    /// The entity's implementors for exclusive use.
    pub fn into_iter(self) -> (r: CombinedWriteTraitsIter<'a, Ctor>)
        requires
            walkable(self.registry, self.table, self.table_row, self.sparse_sets),
        ensures
            r.wf(),
            r.remaining() == with_ticks(
                implementors(self.registry, self.table, self.table_row, self.sparse_sets),
                self.ticks,
            ),
    {
        let mut this = self;
        this.iter_mut()
    }
}

/// What a query for every implementor keeps of the registry: the components,
/// as they stood when the query was built.
pub struct AllQueryState {
    components: Vec<usize>,
}

impl AllQueryState {
    /// The components the state was built with.
    pub closed spec fn ids(&self) -> Seq<usize> {
        self.components@
    }

    /// The state's invariant: no component twice.
    pub open spec fn wf(&self) -> bool {
        self.ids().no_duplicates()
    }

    /// Builds the state from a trait's registry and seals the registry. A
    /// registry without implementors is a mistake of the caller's.
    pub fn init<Ctor: Copy>(registry: &mut TraitImplRegistry<Ctor>) -> (r: Self)
        requires
            old(registry).wf(),
            old(registry)@.entries.len() > 0,
        ensures
            final(registry).wf(),
            final(registry)@ == old(registry)@.seal(),
            r.wf(),
            r.ids() == components_of(old(registry)@.entries),
    {
        registry.seal();
        proof {
            registry.lemma_distinct();
        }
        AllQueryState { components: copy_ids(registry.components()) }
    }

    /// The components the state was built with.
    pub fn components(&self) -> (r: &Vec<usize>)
        ensures
            r@ == self.ids(),
    {
        &self.components
    }

    /// Whether a batch is one the query visits: at least one of the state's
    /// components is in the batch's component set.
    pub fn matches_component_set<F: Fn(usize) -> bool>(&self, set_contains_id: &F) -> (r: bool)
        requires
            forall|i: int|
                0 <= i < self.ids().len() ==> call_requires(
                    *set_contains_id,
                    (#[trigger] self.ids()[i],),
                ),
        ensures
            r ==> exists|i: int| first_yes(set_contains_id, self.ids(), i),
            !r ==> forall|i: int|
                0 <= i < self.ids().len() ==> call_ensures(
                    *set_contains_id,
                    (#[trigger] self.ids()[i],),
                    false,
                ),
            forall|present: Set<usize>| #[trigger]
                decides(set_contains_id, self.ids(), present) ==> r == (match_count(
                    self.ids(),
                    present,
                ) > 0),
    {
        proof {
            assert forall|i: int| 0 <= i < self.components@.len() implies call_requires(
                *set_contains_id,
                (#[trigger] self.components@[i],),
            ) by {
                assert(self.components@[i] == self.ids()[i]);
            }
        }
        let r = any_match(&self.components, set_contains_id);
        proof {
            if r {
                let i = choose|i: int| first_yes(set_contains_id, self.components@, i);
                assert(first_yes(set_contains_id, self.ids(), i));
            }
        }
        r
    }
}

/// The fetch of shared access to every implementor of each entity.
pub struct ReadAllTraitsFetch<'w, Ctor> {
    pub registry: &'w TraitImplRegistry<Ctor>,
    /// The table row of each entity of the archetype the fetch is set to.
    pub entity_table_rows: Option<&'w [usize]>,
    /// The table the fetch is set to.
    pub table: Option<&'w Table>,
    pub sparse_sets: &'w SparseSets,
}

impl<'w, Ctor: Copy> ReadAllTraitsFetch<'w, Ctor> {
    /// A fetch over a registry and the store's sparse sets that has not been
    /// set to a batch.
    pub fn init(
        registry: &'w TraitImplRegistry<Ctor>,
        sparse_sets: &'w SparseSets,
        _state: &AllQueryState,
        _last_change_tick: u32,
        _change_tick: u32,
    ) -> (r: Self)
        ensures
            r.registry == registry,
            r.sparse_sets == sparse_sets,
            r.entity_table_rows is None,
            r.table is None,
    {
        ReadAllTraitsFetch { entity_table_rows: None, registry, table: None, sparse_sets }
    }

    /// Sets the fetch to an archetype and its table.
    pub fn set_archetype(
        &mut self,
        _state: &AllQueryState,
        archetype: &'w Archetype,
        table: &'w Table,
    )
        ensures
            final(self).entity_table_rows matches Some(rows) && rows@ == archetype_rows(*archetype),
            final(self).table == Some(table),
            final(self).registry == old(self).registry,
            final(self).sparse_sets == old(self).sparse_sets,
    {
        self.entity_table_rows = Some(archetype_entity_table_rows(archetype));
        self.table = Some(table);
    }

    /// The implementors of the entity at a position of the archetype.
    pub fn archetype_fetch(&mut self, archetype_index: usize) -> (r: ReadTraits<'w, Ctor>)
        requires
            old(self).entity_table_rows matches Some(rows) && archetype_index < rows@.len(),
            old(self).table is Some,
        ensures
            *final(self) == *old(self),
            r.registry == old(self).registry,
            Some(r.table) == old(self).table,
            r.table_row == old(self).entity_table_rows->0@[archetype_index as int],
            r.sparse_sets == old(self).sparse_sets,
    {
        let entity_table_rows = self.entity_table_rows.unwrap();
        let table_row = entity_table_rows[archetype_index];
        let table = self.table.unwrap();
        ReadTraits { registry: self.registry, table, table_row, sparse_sets: self.sparse_sets }
    }

    /// Sets the fetch to a table.
    pub fn set_table(&mut self, _state: &AllQueryState, table: &'w Table)
        ensures
            final(self).table == Some(table),
            final(self).entity_table_rows == old(self).entity_table_rows,
            final(self).registry == old(self).registry,
            final(self).sparse_sets == old(self).sparse_sets,
    {
        self.table = Some(table);
    }

    /// The implementors of the entity at a table row.
    pub fn table_fetch(&mut self, table_row: usize) -> (r: ReadTraits<'w, Ctor>)
        requires
            old(self).table is Some,
        ensures
            *final(self) == *old(self),
            r.registry == old(self).registry,
            Some(r.table) == old(self).table,
            r.table_row == table_row,
            r.sparse_sets == old(self).sparse_sets,
    {
        let table = self.table.unwrap();
        ReadTraits { registry: self.registry, table, table_row, sparse_sets: self.sparse_sets }
    }

    /// Declares shared access to every component of the state. None of them
    /// may be written by the same query already.
    pub fn update_component_access(state: &AllQueryState, access: &mut ComponentAccess)
        requires
            declarable(state.ids()),
            admits_reads(*old(access), state.ids()),
        ensures
            reads_declared(*old(access), *final(access), state.ids()),
    {
        declare_reads(&state.components, access)
    }

    /// Declares shared access to the archetype's share of every component of
    /// the state.
    pub fn update_archetype_component_access(
        state: &AllQueryState,
        archetype: &Archetype,
        access: &mut ArchetypeAccess,
    )
        requires
            archetype_declarable(state.ids(), archetype_component_ids(*archetype)),
        ensures
            archetype_reads_declared(
                *old(access),
                *final(access),
                state.ids(),
                archetype_component_ids(*archetype),
            ),
    {
        declare_archetype_reads(&state.components, archetype, access)
    }
}

/// The fetch of exclusive access to every implementor of each entity.
pub struct WriteAllTraitsFetch<'w, Ctor> {
    pub registry: &'w TraitImplRegistry<Ctor>,
    /// The table row of each entity of the archetype the fetch is set to.
    pub entity_table_rows: Option<&'w [usize]>,
    /// The table the fetch is set to.
    pub table: Option<&'w Table>,
    pub sparse_sets: &'w SparseSets,
    /// The ticks that the query runs between.
    pub ticks: Ticks,
}

impl<'w, Ctor: Copy> WriteAllTraitsFetch<'w, Ctor> {
    /// A fetch over a registry and the store's sparse sets that has not been
    /// set to a batch.
    pub fn init(
        registry: &'w TraitImplRegistry<Ctor>,
        sparse_sets: &'w SparseSets,
        _state: &AllQueryState,
        last_change_tick: u32,
        change_tick: u32,
    ) -> (r: Self)
        ensures
            r.registry == registry,
            r.sparse_sets == sparse_sets,
            r.entity_table_rows is None,
            r.table is None,
            r.ticks == (Ticks { last_change_tick, change_tick }),
    {
        WriteAllTraitsFetch {
            entity_table_rows: None,
            registry,
            table: None,
            sparse_sets,
            ticks: Ticks { last_change_tick, change_tick },
        }
    }

    /// Sets the fetch to an archetype and its table.
    pub fn set_archetype(
        &mut self,
        _state: &AllQueryState,
        archetype: &'w Archetype,
        table: &'w Table,
    )
        ensures
            final(self).entity_table_rows matches Some(rows) && rows@ == archetype_rows(*archetype),
            final(self).table == Some(table),
            final(self).registry == old(self).registry,
            final(self).sparse_sets == old(self).sparse_sets,
            final(self).ticks == old(self).ticks,
    {
        self.entity_table_rows = Some(archetype_entity_table_rows(archetype));
        self.table = Some(table);
    }

    /// The implementors of the entity at a position of the archetype, for
    /// exclusive use under the ticks of the query.
    pub fn archetype_fetch(&mut self, archetype_index: usize) -> (r: WriteTraits<'w, Ctor>)
        requires
            old(self).entity_table_rows matches Some(rows) && archetype_index < rows@.len(),
            old(self).table is Some,
        ensures
            *final(self) == *old(self),
            r.registry == old(self).registry,
            Some(r.table) == old(self).table,
            r.table_row == old(self).entity_table_rows->0@[archetype_index as int],
            r.sparse_sets == old(self).sparse_sets,
            r.ticks == old(self).ticks,
    {
        let entity_table_rows = self.entity_table_rows.unwrap();
        let table_row = entity_table_rows[archetype_index];
        let table = self.table.unwrap();
        WriteTraits {
            registry: self.registry,
            table,
            table_row,
            sparse_sets: self.sparse_sets,
            ticks: self.ticks,
        }
    }

    /// Sets the fetch to a table.
    pub fn set_table(&mut self, _state: &AllQueryState, table: &'w Table)
        ensures
            final(self).table == Some(table),
            final(self).entity_table_rows == old(self).entity_table_rows,
            final(self).registry == old(self).registry,
            final(self).sparse_sets == old(self).sparse_sets,
            final(self).ticks == old(self).ticks,
    {
        self.table = Some(table);
    }

    /// The implementors of the entity at a table row, for exclusive use
    /// under the ticks of the query.
    pub fn table_fetch(&mut self, table_row: usize) -> (r: WriteTraits<'w, Ctor>)
        requires
            old(self).table is Some,
        ensures
            *final(self) == *old(self),
            r.registry == old(self).registry,
            Some(r.table) == old(self).table,
            r.table_row == table_row,
            r.sparse_sets == old(self).sparse_sets,
            r.ticks == old(self).ticks,
    {
        let table = self.table.unwrap();
        WriteTraits {
            registry: self.registry,
            table,
            table_row,
            sparse_sets: self.sparse_sets,
            ticks: self.ticks,
        }
    }

    /// Declares exclusive access to every component of the state. None of
    /// them may be read or written by the same query already.
    pub fn update_component_access(state: &AllQueryState, access: &mut ComponentAccess)
        requires
            declarable(state.ids()),
            admits_writes(*old(access), state.ids()),
        ensures
            writes_declared(*old(access), *final(access), state.ids()),
    {
        declare_writes(&state.components, access)
    }

    /// Declares exclusive access to the archetype's share of every component
    /// of the state.
    pub fn update_archetype_component_access(
        state: &AllQueryState,
        archetype: &Archetype,
        access: &mut ArchetypeAccess,
    )
        requires
            archetype_declarable(state.ids(), archetype_component_ids(*archetype)),
        ensures
            archetype_writes_declared(
                *old(access),
                *final(access),
                state.ids(),
                archetype_component_ids(*archetype),
            ),
    {
        declare_archetype_writes(&state.components, archetype, access)
    }
}

} // verus!
