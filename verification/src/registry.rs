//! The registry of a trait's implementors: which components implement the
//! trait, how each is stored, and how a reference to it is rebuilt.

use vstd::prelude::*;

verus! {

/// Marker for the trait types that a query can ask for.
pub trait TraitQuery: 'static {}

/// How the store keeps the values of one component type.
#[derive(Clone, Copy, Debug, PartialEq, Eq, Structural)]
pub enum StorageType {
    /// One dense column per component, indexed by table row.
    Table,
    /// One sparse set per component, indexed by entity.
    SparseSet,
}

/// What a fetch needs to turn a component's bytes into a trait reference:
/// the size of one value and the constructor bound to the component's type.
#[derive(Clone, Copy, Debug)]
pub struct TraitImplMeta<Ctor> {
    pub size_bytes: usize,
    pub dyn_ctor: Ctor,
}

/// One registration, as the contracts see it.
pub struct Registration<Ctor> {
    pub component: usize,
    pub storage: StorageType,
    pub meta: TraitImplMeta<Ctor>,
}

/// The mathematical content of a registry: its registrations in the order
/// they were made, and whether it has been sealed.
pub struct RegistryView<Ctor> {
    pub entries: Seq<Registration<Ctor>>,
    pub sealed: bool,
}

/// The component identifiers of a run of registrations.
pub open spec fn components_of<Ctor>(entries: Seq<Registration<Ctor>>) -> Seq<usize> {
    Seq::new(entries.len(), |i: int| entries[i].component)
}

/// The metadata of a run of registrations.
pub open spec fn meta_of<Ctor>(entries: Seq<Registration<Ctor>>) -> Seq<TraitImplMeta<Ctor>> {
    Seq::new(entries.len(), |i: int| entries[i].meta)
}

/// The registrations with the given storage discipline, in their order.
pub open spec fn stored_as<Ctor>(
    entries: Seq<Registration<Ctor>>,
    storage: StorageType,
) -> Seq<Registration<Ctor>>
    decreases entries.len(),
{
    if entries.len() == 0 {
        Seq::empty()
    } else if entries.last().storage == storage {
        stored_as(entries.drop_last(), storage).push(entries.last())
    } else {
        stored_as(entries.drop_last(), storage)
    }
}

impl<Ctor> RegistryView<Ctor> {
    /// Whether a component has been registered.
    pub open spec fn has(self, component: usize) -> bool {
        components_of(self.entries).contains(component)
    }

    /// No component is registered twice.
    pub open spec fn distinct(self) -> bool {
        components_of(self.entries).no_duplicates()
    }

    /// The registry after registering a component: unchanged if the component
    /// is already there, else with the registration appended.
    pub open spec fn register(
        self,
        component: usize,
        storage: StorageType,
        meta: TraitImplMeta<Ctor>,
    ) -> Self {
        if self.has(component) {
            self
        } else {
            RegistryView {
                entries: self.entries.push(Registration { component, storage, meta }),
                sealed: self.sealed,
            }
        }
    }

    /// The registry after sealing.
    pub open spec fn seal(self) -> Self {
        RegistryView { entries: self.entries, sealed: true }
    }
}

/// Appending a registration appends it to the part of its own discipline
/// and leaves the other part alone.
pub proof fn lemma_stored_as_push<Ctor>(
    entries: Seq<Registration<Ctor>>,
    entry: Registration<Ctor>,
    storage: StorageType,
)
    ensures
        stored_as(entries.push(entry), storage) == if entry.storage == storage {
            stored_as(entries, storage).push(entry)
        } else {
            stored_as(entries, storage)
        },
{
    assert(entries.push(entry).drop_last() =~= entries);
}

/// The implementors of one trait. Components are kept in registration order,
/// once in full and once split by storage discipline.
pub struct TraitImplRegistry<Ctor> {
    components: Vec<usize>,
    meta: Vec<TraitImplMeta<Ctor>>,
    table_components: Vec<usize>,
    table_meta: Vec<TraitImplMeta<Ctor>>,
    sparse_components: Vec<usize>,
    sparse_meta: Vec<TraitImplMeta<Ctor>>,
    sealed: bool,
    storages: Ghost<Seq<StorageType>>,
}

impl<Ctor: Copy> View for TraitImplRegistry<Ctor> {
    type V = RegistryView<Ctor>;

    closed spec fn view(&self) -> RegistryView<Ctor> {
        RegistryView {
            entries: Seq::new(
                self.components@.len(),
                |i: int|
                    Registration {
                        component: self.components@[i],
                        storage: self.storages@[i],
                        meta: self.meta@[i],
                    },
            ),
            sealed: self.sealed,
        }
    }
}

impl<Ctor: Copy> TraitImplRegistry<Ctor> {
    /// The registry's invariant: the parallel sequences line up, no component
    /// occurs twice, and the two split sequences hold exactly the table and
    /// sparse-set registrations.
    pub closed spec fn wf(&self) -> bool {
        &&& self.meta@.len() == self.components@.len()
        &&& self.storages@.len() == self.components@.len()
        &&& self.components@.no_duplicates()
        &&& self.table_components@ == components_of(stored_as(self@.entries, StorageType::Table))
        &&& self.table_meta@ == meta_of(stored_as(self@.entries, StorageType::Table))
        &&& self.sparse_components@ == components_of(
            stored_as(self@.entries, StorageType::SparseSet),
        )
        &&& self.sparse_meta@ == meta_of(stored_as(self@.entries, StorageType::SparseSet))
    }

    /// A well-formed registry never holds a component twice.
    pub proof fn lemma_distinct(&self)
        requires
            self.wf(),
        ensures
            self@.distinct(),
    {
        assert(components_of(self@.entries) =~= self.components@);
    }

    /// An empty, unsealed registry.
    pub fn new() -> (r: Self)
        ensures
            r.wf(),
            r@.entries == Seq::<Registration<Ctor>>::empty(),
            !r@.sealed,
    {
        let r = TraitImplRegistry {
            components: Vec::new(),
            meta: Vec::new(),
            table_components: Vec::new(),
            table_meta: Vec::new(),
            sparse_components: Vec::new(),
            sparse_meta: Vec::new(),
            sealed: false,
            storages: Ghost(Seq::empty()),
        };
        proof {
            assert(r@.entries =~= Seq::<Registration<Ctor>>::empty());
            assert(r.table_components@ =~= components_of(stored_as(r@.entries, StorageType::Table)));
            assert(r.table_meta@ =~= meta_of(stored_as(r@.entries, StorageType::Table)));
            assert(r.sparse_components@ =~= components_of(
                stored_as(r@.entries, StorageType::SparseSet),
            ));
            assert(r.sparse_meta@ =~= meta_of(stored_as(r@.entries, StorageType::SparseSet)));
        }
        r
    }

    /// Whether the registry has been sealed.
    pub fn is_sealed(&self) -> (r: bool)
        ensures
            r == self@.sealed,
    {
        self.sealed
    }

    /// The number of registered components.
    pub fn len(&self) -> (r: usize)
        ensures
            r == self@.entries.len(),
    {
        self.components.len()
    }

    /// Whether a component has been registered.
    pub fn contains(&self, component: usize) -> (r: bool)
        ensures
            r == self@.has(component),
    {
        let r = contains_id(&self.components, component);
        proof {
            assert(components_of(self@.entries) =~= self.components@);
        }
        r
    }

    /// The registered components, in registration order.
    pub fn components(&self) -> (r: &Vec<usize>)
        ensures
            r@ == components_of(self@.entries),
    {
        proof {
            assert(components_of(self@.entries) =~= self.components@);
        }
        &self.components
    }

    /// The metadata of the registered components, in registration order.
    pub fn meta(&self) -> (r: &Vec<TraitImplMeta<Ctor>>)
        requires
            self.wf(),
        ensures
            r@ == meta_of(self@.entries),
    {
        proof {
            assert(meta_of(self@.entries) =~= self.meta@);
        }
        &self.meta
    }

    /// The registered table components, in registration order.
    pub fn table_components(&self) -> (r: &Vec<usize>)
        requires
            self.wf(),
        ensures
            r@ == components_of(stored_as(self@.entries, StorageType::Table)),
    {
        &self.table_components
    }

    /// The metadata of the registered table components.
    pub fn table_meta(&self) -> (r: &Vec<TraitImplMeta<Ctor>>)
        requires
            self.wf(),
        ensures
            r@ == meta_of(stored_as(self@.entries, StorageType::Table)),
    {
        &self.table_meta
    }

    /// The registered sparse-set components, in registration order.
    pub fn sparse_components(&self) -> (r: &Vec<usize>)
        requires
            self.wf(),
        ensures
            r@ == components_of(stored_as(self@.entries, StorageType::SparseSet)),
    {
        &self.sparse_components
    }

    /// The metadata of the registered sparse-set components.
    pub fn sparse_meta(&self) -> (r: &Vec<TraitImplMeta<Ctor>>)
        requires
            self.wf(),
        ensures
            r@ == meta_of(stored_as(self@.entries, StorageType::SparseSet)),
    {
        &self.sparse_meta
    }

    /// Registers a component as an implementor. A component that is already
    /// registered is left as it was.
    pub fn register(&mut self, component: usize, storage: StorageType, meta: TraitImplMeta<Ctor>)
        requires
            old(self).wf(),
            !old(self)@.sealed,
        ensures
            final(self).wf(),
            final(self)@ == old(self)@.register(component, storage, meta),
    {
        if self.contains(component) {
            return ;
        }
        let ghost before = self@;
        let ghost entry = Registration { component, storage, meta };
        self.components.push(component);
        self.meta.push(meta);
        proof {
            self.storages = Ghost(self.storages@.push(storage));
        }
        match storage {
            StorageType::Table => {
                self.table_components.push(component);
                self.table_meta.push(meta);
            },
            StorageType::SparseSet => {
                self.sparse_components.push(component);
                self.sparse_meta.push(meta);
            },
        }
        proof {
            assert(self@.entries =~= before.entries.push(entry));
            assert(components_of(before.entries) =~= old(self).components@);
            lemma_stored_as_push(before.entries, entry, StorageType::Table);
            lemma_stored_as_push(before.entries, entry, StorageType::SparseSet);
            let t = stored_as(before.entries, StorageType::Table);
            let s = stored_as(before.entries, StorageType::SparseSet);
            assert(components_of(t.push(entry)) =~= components_of(t).push(component));
            assert(meta_of(t.push(entry)) =~= meta_of(t).push(meta));
            assert(components_of(s.push(entry)) =~= components_of(s).push(component));
            assert(meta_of(s.push(entry)) =~= meta_of(s).push(meta));
        }
    }

    /// Seals the registry: from now on nothing can be registered.
    pub fn seal(&mut self)
        requires
            old(self).wf(),
        ensures
            final(self).wf(),
            final(self)@ == old(self)@.seal(),
    {
        self.sealed = true;
        proof {
            assert(self@.entries =~= old(self)@.entries);
        }
    }
}

impl<Ctor: Copy> Default for TraitImplRegistry<Ctor> {
    /// An empty, unsealed registry.
    fn default() -> (r: Self)
        ensures
            r.wf(),
            r@.entries == Seq::<Registration<Ctor>>::empty(),
            !r@.sealed,
    {
        TraitImplRegistry::new()
    }
}

/// Whether `id` occurs in `ids`.
pub fn contains_id(ids: &Vec<usize>, id: usize) -> (r: bool)
    ensures
        r == ids@.contains(id),
{
    let mut i: usize = 0;
    while i < ids.len()
        invariant
            i <= ids@.len(),
            forall|j: int| 0 <= j < i ==> ids@[j] != id,
        decreases ids@.len() - i,
    {
        if ids[i] == id {
            return true;
        }
        i += 1;
    }
    false
}

/// A copy of a sequence of component identifiers.
pub fn copy_ids(ids: &Vec<usize>) -> (r: Vec<usize>)
    ensures
        r@ == ids@,
{
    let mut r: Vec<usize> = Vec::new();
    let mut i: usize = 0;
    while i < ids.len()
        invariant
            i <= ids@.len(),
            r@ == ids@.take(i as int),
        decreases ids@.len() - i,
    {
        r.push(ids[i]);
        proof {
            assert(ids@.take(i + 1) =~= ids@.take(i as int).push(ids@[i as int]));
        }
        i += 1;
    }
    proof {
        assert(ids@.take(i as int) =~= ids@);
    }
    r
}

/// A copy of a sequence of metadata.
pub fn copy_meta<Ctor: Copy>(meta: &Vec<TraitImplMeta<Ctor>>) -> (r: Vec<TraitImplMeta<Ctor>>)
    ensures
        r@ == meta@,
{
    let mut r: Vec<TraitImplMeta<Ctor>> = Vec::new();
    let mut i: usize = 0;
    while i < meta.len()
        invariant
            i <= meta@.len(),
            r@ == meta@.take(i as int),
        decreases meta@.len() - i,
    {
        r.push(meta[i]);
        proof {
            assert(meta@.take(i + 1) =~= meta@.take(i as int).push(meta@[i as int]));
        }
        i += 1;
    }
    proof {
        assert(meta@.take(i as int) =~= meta@);
    }
    r
}

} // verus!
