//! The store's side of a fetch: tables, archetypes and sparse sets, as far as
//! a trait query reads them. Nothing here is proved; every function states
//! what the store's own code does.

use bevy::ecs::archetype::Archetype;
use bevy::ecs::component::ComponentId;
use bevy::ecs::entity::Entity;
use bevy::ecs::storage::ComponentSparseSet;
use bevy::ecs::storage::SparseSets;
use bevy::ecs::storage::Table;
use vstd::prelude::*;

verus! {

/// `bevy::ecs::storage::Table`, a table of the store: one column for each table component of the
/// archetypes that share it, one row for each of their entities.
#[verifier::external_type_specification]
#[verifier::external_body]
pub struct ExTable(Table);

/// `bevy::ecs::archetype::Archetype`, an archetype of the store: the
/// entities that have one exact set of components.
#[verifier::external_type_specification]
#[verifier::external_body]
pub struct ExArchetype(Archetype);

/// `bevy::ecs::storage::SparseSets`, the store's sparse sets: one for each
/// sparse-set component in use.
#[verifier::external_type_specification]
#[verifier::external_body]
pub struct ExSparseSets(SparseSets);

/// `bevy::ecs::storage::ComponentSparseSet`, the sparse set of one
/// component.
#[verifier::external_type_specification]
#[verifier::external_body]
pub struct ExComponentSparseSet(ComponentSparseSet);

/// The components that have a column in a table.
pub uninterp spec fn table_columns(table: Table) -> Set<usize>;

/// The entities of a table by row, each as the bits of its identifier.
pub uninterp spec fn table_entities(table: Table) -> Seq<u64>;

/// The components of an archetype, table and sparse-set alike.
pub uninterp spec fn archetype_components(archetype: Archetype) -> Set<usize>;

/// The table row of each entity of an archetype, by the entity's position in
/// the archetype.
pub uninterp spec fn archetype_rows(archetype: Archetype) -> Seq<usize>;

/// The entities of an archetype by position, each as the bits of its
/// identifier.
pub uninterp spec fn archetype_entities(archetype: Archetype) -> Seq<u64>;

/// For each component of an archetype, the index under which access to it is
/// tracked.
pub uninterp spec fn archetype_component_ids(archetype: Archetype) -> Map<usize, usize>;

/// For each component that has a sparse set, the entities in that set.
pub uninterp spec fn sparse_sets_members(sets: SparseSets) -> Map<usize, Set<u64>>;

/// The entities in one component's sparse set.
pub uninterp spec fn sparse_set_members(set: ComponentSparseSet) -> Set<u64>;

/// The index part of an entity's bits: the low 32 of the 64.
pub open spec fn entity_index(entity: u64) -> u64 {
    entity & 0xffff_ffff
}

/// No member of the set shares the entity's index under another generation.
/// The store keeps its sparse sets so for every live entity.
pub open spec fn unaliased(members: Set<u64>, entity: u64) -> bool {
    forall|other: u64|
        members.contains(other) && entity_index(other) == entity_index(entity) ==> other
            == entity
}

/// `Table::has_column`: whether the table has a column for the component.
#[verifier::external_body]
pub(crate) fn table_has_column(table: &Table, component: usize) -> (r: bool)
    ensures
        r == table_columns(*table).contains(component),
{
    table.has_column(ComponentId::new(component))
}

/// `Table::entities`, read at one row and turned to bits with
/// `Entity::to_bits`.
#[verifier::external_body]
pub(crate) fn table_entity(table: &Table, row: usize) -> (r: u64)
    requires
        row < table_entities(*table).len(),
    ensures
        r == table_entities(*table)[row as int],
{
    table.entities()[row].to_bits()
}

/// `Table::len`: the number of the table's entities.
#[verifier::external_body]
pub(crate) fn table_len(table: &Table) -> (r: usize)
    ensures
        r == table_entities(*table).len(),
{
    table.len()
}

/// `Archetype::len`: the number of the archetype's entities.
#[verifier::external_body]
pub(crate) fn archetype_len(archetype: &Archetype) -> (r: usize)
    ensures
        r == archetype_entities(*archetype).len(),
{
    archetype.len()
}

/// `Archetype::contains`: whether the archetype has the component.
#[verifier::external_body]
pub(crate) fn archetype_contains(archetype: &Archetype, component: usize) -> (r: bool)
    ensures
        r == archetype_components(*archetype).contains(component),
{
    archetype.contains(ComponentId::new(component))
}

/// `Archetype::entity_table_rows`: the table rows of the archetype's
/// entities.
#[verifier::external_body]
pub(crate) fn archetype_entity_table_rows<'w>(archetype: &'w Archetype) -> (r: &'w [usize])
    ensures
        r@ == archetype_rows(*archetype),
{
    archetype.entity_table_rows()
}

/// `Archetype::entities`, read at one position and turned to bits with
/// `Entity::to_bits`.
#[verifier::external_body]
pub(crate) fn archetype_entity(archetype: &Archetype, index: usize) -> (r: u64)
    requires
        index < archetype_entities(*archetype).len(),
    ensures
        r == archetype_entities(*archetype)[index as int],
{
    archetype.entities()[index].to_bits()
}

/// `Archetype::get_archetype_component_id`, with the identifier turned to
/// its index: present exactly for the archetype's components.
#[verifier::external_body]
pub(crate) fn archetype_component_id(archetype: &Archetype, component: usize) -> (r: Option<usize>)
    ensures
        r.is_some() == archetype_component_ids(*archetype).contains_key(component),
        r matches Some(id) ==> id == archetype_component_ids(*archetype)[component],
{
    archetype.get_archetype_component_id(ComponentId::new(component)).map(|id| id.index())
}

/// `SparseSets::get`: the component's sparse set, if it has one.
#[verifier::external_body]
pub(crate) fn sparse_set_of<'w>(sets: &'w SparseSets, component: usize) -> (r: Option<
    &'w ComponentSparseSet,
>)
    ensures
        r.is_some() == sparse_sets_members(*sets).contains_key(component),
        r matches Some(set) ==> sparse_set_members(*set) == sparse_sets_members(*sets)[component],
{
    sets.get(ComponentId::new(component))
}

/// `ComponentSparseSet::contains`, on the entity that `Entity::from_bits`
/// makes of the bits: whether the entity is in the set. A build with debug
/// assertions stops on an entity whose index is in the set under another
/// generation.
#[verifier::external_body]
pub(crate) fn sparse_set_contains(set: &ComponentSparseSet, entity: u64) -> (r: bool)
    requires
        unaliased(sparse_set_members(*set), entity),
    ensures
        r == sparse_set_members(*set).contains(entity),
{
    set.contains(Entity::from_bits(entity))
}

} // verus!
