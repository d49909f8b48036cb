//! Locating a trait's implementor in a storage batch, and describing where
//! the value of one entity lies.

use crate::registry::TraitImplMeta;
use crate::storage::archetype_components;
use crate::storage::archetype_contains;
use crate::storage::archetype_entities;
use crate::storage::archetype_entity;
use crate::storage::archetype_entity_table_rows;
use crate::storage::archetype_len;
use crate::storage::archetype_rows;
use crate::storage::table_columns;
use crate::storage::table_has_column;
use bevy::ecs::archetype::Archetype;
use bevy::ecs::storage::Table;
use vstd::pervasive::unreached;
use vstd::prelude::*;

verus! {

/// Where the value of one component of one entity lies.
#[derive(Clone, Copy, Debug, PartialEq, Eq, Structural)]
pub enum Place {
    /// In the component's table column: at this row, this many bytes from
    /// the column's start.
    Table { row: usize, byte_offset: usize },
    /// In the component's sparse set, under this entity.
    SparseSet { entity: u64 },
}

/// A reference to a trait implementor that has not been followed yet: the
/// component, the place of the value, and the constructor that turns the
/// value's address into a trait reference.
#[derive(Clone, Copy, Debug)]
pub struct TraitRef<Ctor> {
    pub component: usize,
    pub place: Place,
    pub dyn_ctor: Ctor,
}

/// The change ticks that a query runs between.
#[derive(Clone, Copy, Debug, PartialEq, Eq, Structural)]
pub struct Ticks {
    pub last_change_tick: u32,
    pub change_tick: u32,
}

/// An exclusive reference to a trait implementor that has not been followed
/// yet, with the ticks against which a change of the value is recorded. The
/// value's own ticks lie at the same place as the value.
#[derive(Clone, Copy, Debug)]
pub struct Mut<Ctor> {
    pub value: TraitRef<Ctor>,
    pub ticks: Ticks,
}

/// What a fetch remembers of the batch it is set to.
pub enum TraitStorage<'w, Ctor> {
    /// The fetch has not been set to a batch.
    Uninit,
    /// The implementor is a table component. `entity_rows` gives the table
    /// row of each entity of the archetype, and is empty where the fetch
    /// goes by table rows.
    Table { component: usize, entity_rows: &'w [usize], meta: TraitImplMeta<Ctor> },
    /// The implementor is a sparse-set component of the archetype.
    SparseSet { component: usize, archetype: &'w Archetype, meta: TraitImplMeta<Ctor> },
}

/// The position of the first component that is in the set, or the length of
/// the sequence if none is.
pub open spec fn first_match(components: Seq<usize>, present: Set<usize>) -> int
    decreases components.len(),
{
    if components.len() == 0 {
        0
    } else if present.contains(components.first()) {
        0
    } else {
        1 + first_match(components.drop_first(), present)
    }
}

/// Which of a query's components a batch holds the implementor under.
pub enum Located {
    /// The component at this position, in the batch's table.
    Table(int),
    /// The component at this position, in a sparse set.
    SparseSet(int),
    /// None of the components is in the batch.
    Nowhere,
}

/// The implementor that a fetch settles on: the first component with a
/// column in the batch's table, or else the first one among the batch's
/// components.
pub open spec fn locate(components: Seq<usize>, table: Set<usize>, batch: Set<usize>) -> Located {
    if first_match(components, table) < components.len() {
        Located::Table(first_match(components, table))
    } else if first_match(components, batch) < components.len() {
        Located::SparseSet(first_match(components, batch))
    } else {
        Located::Nowhere
    }
}

/// `first_match` is a position in the sequence or its length; nothing before
/// it is in the set, and the component at it is.
pub proof fn lemma_first_match(components: Seq<usize>, present: Set<usize>)
    ensures
        0 <= first_match(components, present) <= components.len(),
        forall|j: int|
            0 <= j < first_match(components, present) ==> !present.contains(
                #[trigger] components[j],
            ),
        first_match(components, present) < components.len() ==> present.contains(
            components[first_match(components, present)],
        ),
    decreases components.len(),
{
    if components.len() > 0 && !present.contains(components.first()) {
        let rest = components.drop_first();
        lemma_first_match(rest, present);
        assert forall|j: int| 0 <= j < first_match(components, present) implies !present.contains(
            #[trigger] components[j],
        ) by {
            if j > 0 {
                assert(components[j] == rest[j - 1]);
            }
        }
    }
}

/// A position with nothing in the set before it is `first_match`, if the
/// component at it is in the set or it is the sequence's length.
pub proof fn lemma_first_match_is(components: Seq<usize>, present: Set<usize>, k: int)
    requires
        0 <= k <= components.len(),
        forall|j: int| 0 <= j < k ==> !present.contains(#[trigger] components[j]),
        k < components.len() ==> present.contains(components[k]),
    ensures
        first_match(components, present) == k,
{
    lemma_first_match(components, present);
    let f = first_match(components, present);
    if f < k {
        assert(!present.contains(components[f]));
    } else if k < f {
        assert(!present.contains(components[k]));
    }
}

/// The position of the first component with a column in the table.
pub fn first_in_table(components: &Vec<usize>, table: &Table) -> (r: Option<usize>)
    ensures
        match r {
            Some(k) => k < components@.len() && k == first_match(
                components@,
                table_columns(*table),
            ),
            None => first_match(components@, table_columns(*table)) == components@.len(),
        },
{
    let mut i: usize = 0;
    while i < components.len()
        invariant
            i <= components@.len(),
            forall|j: int| 0 <= j < i ==> !table_columns(*table).contains(#[trigger] components@[j]),
        decreases components@.len() - i,
    {
        if table_has_column(table, components[i]) {
            proof {
                lemma_first_match_is(components@, table_columns(*table), i as int);
            }
            return Some(i);
        }
        i += 1;
    }
    proof {
        lemma_first_match_is(components@, table_columns(*table), i as int);
    }
    None
}

/// The position of the first component that the archetype has.
pub fn first_in_archetype(components: &Vec<usize>, archetype: &Archetype) -> (r: Option<usize>)
    ensures
        match r {
            Some(k) => k < components@.len() && k == first_match(
                components@,
                archetype_components(*archetype),
            ),
            None => first_match(components@, archetype_components(*archetype))
                == components@.len(),
        },
{
    let mut i: usize = 0;
    while i < components.len()
        invariant
            i <= components@.len(),
            forall|j: int|
                0 <= j < i ==> !archetype_components(*archetype).contains(
                    #[trigger] components@[j],
                ),
        decreases components@.len() - i,
    {
        if archetype_contains(archetype, components[i]) {
            proof {
                lemma_first_match_is(components@, archetype_components(*archetype), i as int);
            }
            return Some(i);
        }
        i += 1;
    }
    proof {
        lemma_first_match_is(components@, archetype_components(*archetype), i as int);
    }
    None
}

impl<'w, Ctor: Copy> TraitStorage<'w, Ctor> {
    /// Whether the storage is what a fetch remembers of an archetype: the
    /// implementor that `locate` names, with its metadata, and the
    /// archetype's rows or the archetype itself.
    pub open spec fn set_to_archetype(
        self,
        components: Seq<usize>,
        metas: Seq<TraitImplMeta<Ctor>>,
        archetype: Archetype,
        table: Table,
    ) -> bool {
        match locate(components, table_columns(table), archetype_components(archetype)) {
            Located::Table(k) => self matches TraitStorage::Table { component, entity_rows, meta }
                && component == components[k] && meta == metas[k] && entity_rows@
                == archetype_rows(archetype),
            Located::SparseSet(k) => self matches TraitStorage::SparseSet {
                component,
                archetype: of,
                meta,
            } && component == components[k] && meta == metas[k] && *of == archetype,
            Located::Nowhere => false,
        }
    }

    /// Whether the storage is what a fetch remembers of a table: the first
    /// component with a column in it, with its metadata, and no rows.
    pub open spec fn set_to_table(
        self,
        components: Seq<usize>,
        metas: Seq<TraitImplMeta<Ctor>>,
        table: Table,
    ) -> bool {
        let k = first_match(components, table_columns(table));
        &&& k < components.len()
        &&& self matches TraitStorage::Table { component, entity_rows, meta }
        &&& component == components[k]
        &&& meta == metas[k]
        &&& entity_rows@.len() == 0
    }

    /// Whether the entity at a position of the archetype can be fetched: the
    /// storage is set, the position is one of the archetype's, and the
    /// offset of a table value fits the machine's word.
    pub open spec fn can_fetch_at(self, archetype_index: usize) -> bool {
        match self {
            TraitStorage::Uninit => false,
            TraitStorage::Table { entity_rows, meta, .. } => archetype_index < entity_rows@.len()
                && entity_rows@[archetype_index as int] * meta.size_bytes <= usize::MAX,
            TraitStorage::SparseSet { archetype, .. } => archetype_index < archetype_entities(
                *archetype,
            ).len(),
        }
    }

    /// Whether the entity at a table row can be fetched: the storage is set
    /// to a table component, and the offset of the value fits the machine's
    /// word.
    pub open spec fn can_fetch_row(self, table_row: usize) -> bool {
        self matches TraitStorage::Table { meta, .. } && table_row * meta.size_bytes
            <= usize::MAX
    }

    /// The implementor of the entity at a position of the archetype.
    pub open spec fn at(self, archetype_index: usize) -> TraitRef<Ctor> {
        match self {
            TraitStorage::Table { component, entity_rows, meta } => TraitRef {
                component,
                place: Place::Table {
                    row: entity_rows@[archetype_index as int],
                    byte_offset: (entity_rows@[archetype_index as int] * meta.size_bytes) as usize,
                },
                dyn_ctor: meta.dyn_ctor,
            },
            TraitStorage::SparseSet { component, archetype, meta } => TraitRef {
                component,
                place: Place::SparseSet {
                    entity: archetype_entities(*archetype)[archetype_index as int],
                },
                dyn_ctor: meta.dyn_ctor,
            },
            TraitStorage::Uninit => arbitrary(),
        }
    }

    /// The implementor of the entity at a table row.
    pub open spec fn at_row(self, table_row: usize) -> TraitRef<Ctor> {
        match self {
            TraitStorage::Table { component, meta, .. } => TraitRef {
                component,
                place: Place::Table {
                    row: table_row,
                    byte_offset: (table_row * meta.size_bytes) as usize,
                },
                dyn_ctor: meta.dyn_ctor,
            },
            _ => arbitrary(),
        }
    }

    /// Searches an archetype for one of the components: first among the
    /// columns of its table, then among all that the archetype has.
    pub fn of_archetype(
        components: &Vec<usize>,
        metas: &Vec<TraitImplMeta<Ctor>>,
        archetype: &'w Archetype,
        table: &Table,
    ) -> (r: Self)
        requires
            metas@.len() == components@.len(),
            locate(components@, table_columns(*table), archetype_components(*archetype))
                !is Nowhere,
        ensures
            r.set_to_archetype(components@, metas@, *archetype, *table),
    {
        if let Some(k) = first_in_table(components, table) {
            return TraitStorage::Table {
                component: components[k],
                entity_rows: archetype_entity_table_rows(archetype),
                meta: metas[k],
            };
        }
        if let Some(k) = first_in_archetype(components, archetype) {
            return TraitStorage::SparseSet {
                component: components[k],
                archetype,
                meta: metas[k],
            };
        }
        unreached()
    }

    /// Searches a table for a column of one of the components.
    pub fn of_table(
        components: &Vec<usize>,
        metas: &Vec<TraitImplMeta<Ctor>>,
        table: &Table,
    ) -> (r: Self)
        requires
            metas@.len() == components@.len(),
            first_match(components@, table_columns(*table)) < components@.len(),
        ensures
            r.set_to_table(components@, metas@, *table),
    {
        if let Some(k) = first_in_table(components, table) {
            let entity_rows: &'w [usize] = &[];
            return TraitStorage::Table { component: components[k], entity_rows, meta: metas[k] };
        }
        unreached()
    }

    /// Whether the archetype has one of the components, in its table or
    /// elsewhere: whether a fetch can be set to it.
    pub fn has_implementor(components: &Vec<usize>, archetype: &Archetype, table: &Table) -> (r:
        bool)
        ensures
            r == (locate(components@, table_columns(*table), archetype_components(*archetype))
                !is Nowhere),
    {
        first_in_table(components, table).is_some() || first_in_archetype(
            components,
            archetype,
        ).is_some()
    }

    /// Whether the table has a column for one of the components: whether a
    /// fetch can be set to it.
    pub fn has_column(components: &Vec<usize>, table: &Table) -> (r: bool)
        ensures
            r == (first_match(components@, table_columns(*table)) < components@.len()),
    {
        first_in_table(components, table).is_some()
    }

    /// Whether the entity at a position of the archetype can be fetched.
    pub fn is_fetchable_at(&self, archetype_index: usize) -> (r: bool)
        ensures
            r == self.can_fetch_at(archetype_index),
    {
        match self {
            TraitStorage::Uninit => false,
            TraitStorage::Table { component: _, entity_rows, meta } => {
                archetype_index < entity_rows.len() && entity_rows[archetype_index].checked_mul(
                    meta.size_bytes,
                ).is_some()
            },
            TraitStorage::SparseSet { component: _, archetype, meta: _ } => {
                archetype_index < archetype_len(archetype)
            },
        }
    }

    /// Whether the entity at a table row can be fetched.
    pub fn is_fetchable_row(&self, table_row: usize) -> (r: bool)
        ensures
            r == self.can_fetch_row(table_row),
    {
        match self {
            TraitStorage::Table { component: _, entity_rows: _, meta } => table_row.checked_mul(
                meta.size_bytes,
            ).is_some(),
            _ => false,
        }
    }

    /// Where the implementor of the entity at a position of the archetype
    /// lies.
    pub fn fetch_at(&self, archetype_index: usize) -> (r: TraitRef<Ctor>)
        requires
            self.can_fetch_at(archetype_index),
        ensures
            r == self.at(archetype_index),
    {
        match self {
            TraitStorage::Uninit => unreached(),
            TraitStorage::Table { component, entity_rows, meta } => {
                let table_row = entity_rows[archetype_index];
                TraitRef {
                    component: *component,
                    place: Place::Table { row: table_row, byte_offset: table_row * meta.size_bytes },
                    dyn_ctor: meta.dyn_ctor,
                }
            },
            TraitStorage::SparseSet { component, archetype, meta } => {
                let entity = archetype_entity(archetype, archetype_index);
                TraitRef {
                    component: *component,
                    place: Place::SparseSet { entity },
                    dyn_ctor: meta.dyn_ctor,
                }
            },
        }
    }

    /// Where the implementor of the entity at a table row lies.
    pub fn fetch_row(&self, table_row: usize) -> (r: TraitRef<Ctor>)
        requires
            self.can_fetch_row(table_row),
        ensures
            r == self.at_row(table_row),
    {
        match self {
            TraitStorage::Table { component, entity_rows: _, meta } => TraitRef {
                component: *component,
                place: Place::Table { row: table_row, byte_offset: table_row * meta.size_bytes },
                dyn_ctor: meta.dyn_ctor,
            },
            _ => unreached(),
        }
    }
}

} // verus!
