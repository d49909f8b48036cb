//! The query for entities that have exactly one component implementing a
//! trait.

use crate::access::admits_reads;
use crate::access::admits_writes;
use crate::access::archetype_declarable;
use crate::access::archetype_reads_declared;
use crate::access::archetype_writes_declared;
use crate::access::declarable;
use crate::access::declare_archetype_reads;
use crate::access::declare_archetype_writes;
use crate::access::declare_reads;
use crate::access::declare_writes;
use crate::access::reads_declared;
use crate::access::writes_declared;
use crate::access::ArchetypeAccess;
use crate::access::ComponentAccess;
use crate::fetch::first_match;
use crate::fetch::locate;
use crate::fetch::Mut;
use crate::fetch::Ticks;
use crate::fetch::TraitRef;
use crate::fetch::TraitStorage;
use crate::matching::answered;
use crate::matching::count_matches;
use crate::matching::count_true;
use crate::matching::decides;
use crate::matching::match_count;
use crate::registry::components_of;
use crate::registry::copy_ids;
use crate::registry::copy_meta;
use crate::registry::meta_of;
use crate::registry::TraitImplMeta;
use crate::registry::TraitImplRegistry;
use crate::storage::archetype_component_ids;
use crate::storage::archetype_components;
use crate::storage::table_columns;
use bevy::ecs::archetype::Archetype;
use bevy::ecs::storage::Table;
use vstd::prelude::*;

verus! {

/// Adapter that asks for the one component of an entity that implements a
/// trait.
pub struct One<T>(pub T);

/// What a query for exactly one implementor keeps of the registry: the
/// components and their metadata, as they stood when the query was built.
pub struct OneQueryState<Ctor> {
    components: Vec<usize>,
    meta: Vec<TraitImplMeta<Ctor>>,
}

impl<Ctor: Copy> OneQueryState<Ctor> {
    /// The components the state was built with.
    pub closed spec fn ids(&self) -> Seq<usize> {
        self.components@
    }

    /// The metadata the state was built with, one for each component.
    pub closed spec fn metas(&self) -> Seq<TraitImplMeta<Ctor>> {
        self.meta@
    }

    /// The state's invariant: one metadata for each component, and no
    /// component twice.
    pub open spec fn wf(&self) -> bool {
        &&& self.metas().len() == self.ids().len()
        &&& self.ids().no_duplicates()
    }

    /// Builds the state from a trait's registry and seals the registry. A
    /// registry without implementors is a mistake of the caller's.
    pub fn init(registry: &mut TraitImplRegistry<Ctor>) -> (r: Self)
        requires
            old(registry).wf(),
            old(registry)@.entries.len() > 0,
        ensures
            final(registry).wf(),
            final(registry)@ == old(registry)@.seal(),
            r.wf(),
            r.ids() == components_of(old(registry)@.entries),
            r.metas() == meta_of(old(registry)@.entries),
    {
        registry.seal();
        proof {
            registry.lemma_distinct();
        }
        OneQueryState {
            components: copy_ids(registry.components()),
            meta: copy_meta(registry.meta()),
        }
    }

    /// The components the state was built with.
    pub fn components(&self) -> (r: &Vec<usize>)
        ensures
            r@ == self.ids(),
    {
        &self.components
    }

    /// The metadata the state was built with.
    pub fn meta(&self) -> (r: &Vec<TraitImplMeta<Ctor>>)
        ensures
            r@ == self.metas(),
    {
        &self.meta
    }

    /// Whether a batch is one the query visits: exactly one of the state's
    /// components is in the batch's component set.
    pub fn matches_component_set<F: Fn(usize) -> bool>(&self, set_contains_id: &F) -> (r: bool)
        requires
            forall|i: int|
                0 <= i < self.ids().len() ==> call_requires(
                    *set_contains_id,
                    (#[trigger] self.ids()[i],),
                ),
        ensures
            exists|answers: Seq<bool>|
                answered(set_contains_id, self.ids(), answers) && r == (count_true(answers) == 1),
            forall|present: Set<usize>| #[trigger]
                decides(set_contains_id, self.ids(), present) ==> r == (match_count(
                    self.ids(),
                    present,
                ) == 1),
    {
        proof {
            assert forall|i: int| 0 <= i < self.components@.len() implies call_requires(
                *set_contains_id,
                (#[trigger] self.components@[i],),
            ) by {
                assert(self.components@[i] == self.ids()[i]);
            }
        }
        let match_count = count_matches(&self.components, set_contains_id);
        match_count == 1
    }
}

/// The fetch of a shared reference to the one implementor of each entity.
pub struct ReadTraitFetch<'w, Ctor> {
    /// What the fetch remembers of the batch it was last set to.
    pub storage: TraitStorage<'w, Ctor>,
}

impl<'w, Ctor: Copy> ReadTraitFetch<'w, Ctor> {
    /// A fetch that has not been set to a batch.
    pub fn init(_state: &OneQueryState<Ctor>, _last_change_tick: u32, _change_tick: u32) -> (r:
        Self)
        ensures
            r.storage is Uninit,
    {
        ReadTraitFetch { storage: TraitStorage::Uninit }
    }

    /// Sets the fetch to an archetype and its table. The archetype must have
    /// one of the state's components: the query visits no other.
    pub fn set_archetype(
        &mut self,
        state: &OneQueryState<Ctor>,
        archetype: &'w Archetype,
        table: &'w Table,
    )
        requires
            state.wf(),
            locate(state.ids(), table_columns(*table), archetype_components(*archetype))
                !is Nowhere,
        ensures
            final(self).storage.set_to_archetype(state.ids(), state.metas(), *archetype, *table),
    {
        self.storage = TraitStorage::of_archetype(&state.components, &state.meta, archetype, table);
    }

    /// The implementor of the entity at a position of the archetype.
    pub fn archetype_fetch(&mut self, archetype_index: usize) -> (r: TraitRef<Ctor>)
        requires
            old(self).storage.can_fetch_at(archetype_index),
        ensures
            r == old(self).storage.at(archetype_index),
            final(self).storage == old(self).storage,
    {
        self.storage.fetch_at(archetype_index)
    }

    /// Sets the fetch to a table. The table must have a column for one of
    /// the state's components.
    pub fn set_table(&mut self, state: &OneQueryState<Ctor>, table: &'w Table)
        requires
            state.wf(),
            first_match(state.ids(), table_columns(*table)) < state.ids().len(),
        ensures
            final(self).storage.set_to_table(state.ids(), state.metas(), *table),
    {
        self.storage = TraitStorage::of_table(&state.components, &state.meta, table);
    }

    /// The implementor of the entity at a table row.
    pub fn table_fetch(&mut self, table_row: usize) -> (r: TraitRef<Ctor>)
        requires
            old(self).storage.can_fetch_row(table_row),
        ensures
            r == old(self).storage.at_row(table_row),
            final(self).storage == old(self).storage,
    {
        self.storage.fetch_row(table_row)
    }

    /// Declares shared access to every component of the state. None of them
    /// may be written by the same query already.
    pub fn update_component_access(state: &OneQueryState<Ctor>, access: &mut ComponentAccess)
        requires
            declarable(state.ids()),
            admits_reads(*old(access), state.ids()),
        ensures
            reads_declared(*old(access), *final(access), state.ids()),
    {
        declare_reads(&state.components, access)
    }

    /// Declares shared access to the archetype's share of every component of
    /// the state.
    pub fn update_archetype_component_access(
        state: &OneQueryState<Ctor>,
        archetype: &Archetype,
        access: &mut ArchetypeAccess,
    )
        requires
            archetype_declarable(state.ids(), archetype_component_ids(*archetype)),
        ensures
            archetype_reads_declared(
                *old(access),
                *final(access),
                state.ids(),
                archetype_component_ids(*archetype),
            ),
    {
        declare_archetype_reads(&state.components, archetype, access)
    }
}

/// The fetch of an exclusive reference to the one implementor of each
/// entity.
pub struct WriteTraitFetch<'w, Ctor> {
    /// What the fetch remembers of the batch it was last set to.
    pub storage: TraitStorage<'w, Ctor>,
    /// The ticks that the query runs between.
    pub ticks: Ticks,
}

impl<'w, Ctor: Copy> WriteTraitFetch<'w, Ctor> {
    /// A fetch that has not been set to a batch.
    pub fn init(_state: &OneQueryState<Ctor>, last_change_tick: u32, change_tick: u32) -> (r:
        Self)
        ensures
            r.storage is Uninit,
            r.ticks == (Ticks { last_change_tick, change_tick }),
    {
        WriteTraitFetch {
            storage: TraitStorage::Uninit,
            ticks: Ticks { last_change_tick, change_tick },
        }
    }

    /// Sets the fetch to an archetype and its table. The archetype must have
    /// one of the state's components: the query visits no other.
    pub fn set_archetype(
        &mut self,
        state: &OneQueryState<Ctor>,
        archetype: &'w Archetype,
        table: &'w Table,
    )
        requires
            state.wf(),
            locate(state.ids(), table_columns(*table), archetype_components(*archetype))
                !is Nowhere,
        ensures
            final(self).storage.set_to_archetype(state.ids(), state.metas(), *archetype, *table),
            final(self).ticks == old(self).ticks,
    {
        self.storage = TraitStorage::of_archetype(&state.components, &state.meta, archetype, table);
    }

    /// The implementor of the entity at a position of the archetype, with
    /// the ticks of the query.
    pub fn archetype_fetch(&mut self, archetype_index: usize) -> (r: Mut<Ctor>)
        requires
            old(self).storage.can_fetch_at(archetype_index),
        ensures
            r.value == old(self).storage.at(archetype_index),
            r.ticks == old(self).ticks,
            final(self).storage == old(self).storage,
            final(self).ticks == old(self).ticks,
    {
        Mut { value: self.storage.fetch_at(archetype_index), ticks: self.ticks }
    }

    /// Sets the fetch to a table. The table must have a column for one of
    /// the state's components.
    pub fn set_table(&mut self, state: &OneQueryState<Ctor>, table: &'w Table)
        requires
            state.wf(),
            first_match(state.ids(), table_columns(*table)) < state.ids().len(),
        ensures
            final(self).storage.set_to_table(state.ids(), state.metas(), *table),
            final(self).ticks == old(self).ticks,
    {
        self.storage = TraitStorage::of_table(&state.components, &state.meta, table);
    }

    /// The implementor of the entity at a table row, with the ticks of the
    /// query.
    pub fn table_fetch(&mut self, table_row: usize) -> (r: Mut<Ctor>)
        requires
            old(self).storage.can_fetch_row(table_row),
        ensures
            r.value == old(self).storage.at_row(table_row),
            r.ticks == old(self).ticks,
            final(self).storage == old(self).storage,
            final(self).ticks == old(self).ticks,
    {
        Mut { value: self.storage.fetch_row(table_row), ticks: self.ticks }
    }

    /// Declares exclusive access to every component of the state. None of
    /// them may be read or written by the same query already.
    pub fn update_component_access(state: &OneQueryState<Ctor>, access: &mut ComponentAccess)
        requires
            declarable(state.ids()),
            admits_writes(*old(access), state.ids()),
        ensures
            writes_declared(*old(access), *final(access), state.ids()),
    {
        declare_writes(&state.components, access)
    }

    /// Declares exclusive access to the archetype's share of every component
    /// of the state.
    pub fn update_archetype_component_access(
        state: &OneQueryState<Ctor>,
        archetype: &Archetype,
        access: &mut ArchetypeAccess,
    )
        requires
            archetype_declarable(state.ids(), archetype_component_ids(*archetype)),
        ensures
            archetype_writes_declared(
                *old(access),
                *final(access),
                state.ids(),
                archetype_component_ids(*archetype),
            ),
    {
        declare_archetype_writes(&state.components, archetype, access)
    }
}

} // verus!
