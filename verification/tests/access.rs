use bevy::ecs::component::{Component, SparseStorage, TableStorage};
use bevy::ecs::world::World;
use bevy_trait_query::access::{declare_archetype_reads, declare_archetype_writes};
use bevy_trait_query::access::{is_archetype_declarable, is_declarable};
use bevy_trait_query::access::{declare_reads, declare_writes, ArchetypeAccess, ComponentAccess};
use bevy_trait_query::all::{AllQueryState, ReadAllTraitsFetch, WriteAllTraitsFetch};
use bevy_trait_query::one::{OneQueryState, ReadTraitFetch, WriteTraitFetch};
use bevy_trait_query::registry::{StorageType, TraitImplMeta, TraitImplRegistry};

struct Dense(u16);

impl Component for Dense {
    type Storage = TableStorage;
}

struct Sparse(u16);

impl Component for Sparse {
    type Storage = SparseStorage;
}

struct Other(u16);

impl Component for Other {
    type Storage = TableStorage;
}

fn registry_of(components: &[usize]) -> TraitImplRegistry<()> {
    let mut registry = TraitImplRegistry::new();
    for &component in components {
        registry.register(component, StorageType::Table, TraitImplMeta { size_bytes: 2, dyn_ctor: () });
    }
    registry
}

#[test]
fn new_component_access_is_empty() {
    let access = ComponentAccess::new();
    assert!(!access.has_read(0));
    assert!(!access.has_write(0));
    assert!(!access.has_read_all());
    assert!(access.admits_reads(&vec![0, 1, 2]));
    assert!(access.admits_writes(&vec![0, 1, 2]));
}

#[test]
fn add_read_makes_a_component_read_only() {
    let mut access = ComponentAccess::new();
    access.add_read(3);
    assert!(access.has_read(3));
    assert!(!access.has_write(3));
    assert!(!access.has_read(2));
    assert!(!access.has_read(4));
}

#[test]
fn add_write_makes_a_component_read_and_written() {
    let mut access = ComponentAccess::new();
    access.add_write(3);
    assert!(access.has_read(3));
    assert!(access.has_write(3));
    assert!(!access.has_write(2));
}

#[test]
fn read_all_reads_every_component() {
    let mut access = ComponentAccess::new();
    access.read_all();
    assert!(access.has_read_all());
    assert!(access.has_read(77));
    assert!(!access.has_write(77));
    assert!(!access.admits_writes(&vec![1]));
    assert!(!access.admits_writes(&Vec::new()));
    assert!(access.admits_reads(&vec![1]));
}

#[test]
fn shared_access_is_refused_where_a_component_is_written() {
    let mut access = ComponentAccess::new();
    access.add_write(5);
    assert!(!access.admits_reads(&vec![1, 5]));
    assert!(access.admits_reads(&vec![1, 6]));
    assert!(access.admits_reads(&Vec::new()));
}

#[test]
fn exclusive_access_is_refused_where_a_component_is_read_or_written() {
    let mut access = ComponentAccess::new();
    access.add_read(5);
    access.add_write(8);
    assert!(!access.admits_writes(&vec![1, 5]));
    assert!(!access.admits_writes(&vec![8]));
    assert!(access.admits_writes(&vec![1, 6]));
}

#[test]
fn declare_reads_adds_every_component() {
    let mut access = ComponentAccess::new();
    access.add_write(9);
    declare_reads(&vec![2, 4], &mut access);
    assert!(access.has_read(2));
    assert!(access.has_read(4));
    assert!(!access.has_read(3));
    assert!(!access.has_write(2));
    assert!(!access.has_write(4));
    assert!(access.has_write(9));
}

#[test]
fn declare_writes_adds_every_component() {
    let mut access = ComponentAccess::new();
    access.add_read(9);
    declare_writes(&vec![2, 4], &mut access);
    assert!(access.has_write(2));
    assert!(access.has_write(4));
    assert!(access.has_read(2));
    assert!(!access.has_write(3));
    assert!(!access.has_write(9));
    assert!(access.has_read(9));
}

#[test]
fn one_query_declares_shared_access() {
    let mut registry = registry_of(&[2, 4]);
    let state = OneQueryState::init(&mut registry);
    let mut access = ComponentAccess::new();
    assert!(access.admits_reads(state.components()));
    ReadTraitFetch::update_component_access(&state, &mut access);
    assert!(access.has_read(2) && access.has_read(4));
    assert!(!access.has_write(2) && !access.has_write(4));
    assert!(access.admits_reads(state.components()));
    assert!(!access.admits_writes(state.components()));
}

#[test]
fn one_query_declares_exclusive_access() {
    let mut registry = registry_of(&[2, 4]);
    let state = OneQueryState::init(&mut registry);
    let mut access = ComponentAccess::new();
    assert!(access.admits_writes(state.components()));
    WriteTraitFetch::update_component_access(&state, &mut access);
    assert!(access.has_write(2) && access.has_write(4));
    assert!(!access.admits_writes(state.components()));
    assert!(!access.admits_reads(state.components()));
}

#[test]
fn all_query_declares_shared_access() {
    let mut registry = registry_of(&[2, 4]);
    let state = AllQueryState::init(&mut registry);
    let mut access = ComponentAccess::new();
    ReadAllTraitsFetch::<()>::update_component_access(&state, &mut access);
    assert!(access.has_read(2) && access.has_read(4));
    assert!(!access.has_write(2) && !access.has_write(4));
}

#[test]
fn all_query_declares_exclusive_access() {
    let mut registry = registry_of(&[2, 4]);
    let state = AllQueryState::init(&mut registry);
    let mut access = ComponentAccess::new();
    WriteAllTraitsFetch::<()>::update_component_access(&state, &mut access);
    assert!(access.has_write(2) && access.has_write(4));
    assert!(!access.has_write(3));
}

#[test]
fn a_second_exclusive_declaration_is_refused() {
    let mut registry = registry_of(&[2, 4]);
    let first = OneQueryState::init(&mut registry);
    let mut other = registry_of(&[4, 6]);
    let second = AllQueryState::init(&mut other);
    let mut access = ComponentAccess::new();
    WriteTraitFetch::update_component_access(&first, &mut access);
    assert!(!access.admits_writes(second.components()));
    assert!(!access.admits_reads(second.components()));
    assert!(access.admits_writes(&vec![6]));
}

#[test]
fn queries_that_write_the_same_component_are_incompatible() {
    let mut registry = registry_of(&[2, 4]);
    let first = OneQueryState::init(&mut registry);
    let mut other = registry_of(&[4, 6]);
    let second = AllQueryState::init(&mut other);
    let mut a = ComponentAccess::new();
    let mut b = ComponentAccess::new();
    WriteTraitFetch::update_component_access(&first, &mut a);
    WriteAllTraitsFetch::<()>::update_component_access(&second, &mut b);
    assert!(!a.is_compatible(&b));
    assert!(!b.is_compatible(&a));
}

#[test]
fn queries_that_only_read_are_compatible() {
    let mut registry = registry_of(&[2, 4]);
    let state = OneQueryState::init(&mut registry);
    let mut a = ComponentAccess::new();
    let mut b = ComponentAccess::new();
    ReadTraitFetch::update_component_access(&state, &mut a);
    ReadTraitFetch::update_component_access(&state, &mut b);
    assert!(a.is_compatible(&b));
}

#[test]
fn a_writer_is_incompatible_with_a_reader_of_the_same_component() {
    let mut a = ComponentAccess::new();
    let mut b = ComponentAccess::new();
    a.add_write(1);
    b.add_read(1);
    assert!(!a.is_compatible(&b));
    assert!(!b.is_compatible(&a));
    let mut c = ComponentAccess::new();
    c.add_read(2);
    assert!(a.is_compatible(&c));
}

#[test]
fn a_reader_of_everything_is_compatible_with_readers_only() {
    let mut all = ComponentAccess::new();
    all.read_all();
    let mut reader = ComponentAccess::new();
    reader.add_read(1);
    let mut writer = ComponentAccess::new();
    writer.add_write(1);
    assert!(all.is_compatible(&reader));
    assert!(reader.is_compatible(&all));
    assert!(!all.is_compatible(&writer));
    assert!(!writer.is_compatible(&all));
}

#[test]
fn archetype_access_records_reads_and_writes() {
    let mut access = ArchetypeAccess::new();
    assert!(access.reads().is_empty());
    assert!(access.writes().is_empty());
    access.add_read(7);
    access.add_write(3);
    access.add_read(5);
    assert_eq!(access.reads(), vec![3, 5, 7]);
    assert_eq!(access.writes(), vec![3]);
}

#[test]
fn archetype_declarations_cover_the_components_the_archetype_has() {
    let mut world = World::new();
    let dense = world.init_component::<Dense>().index();
    let sparse = world.init_component::<Sparse>().index();
    let other = world.init_component::<Other>().index();
    let missing = 1000;
    let entity = world.spawn().insert(Dense(1)).insert(Sparse(2)).insert(Other(3)).id();
    assert!(Dense(1).0 + Sparse(1).0 + Other(1).0 > 0);
    let location = world.entity(entity).location();
    let archetype = &world.archetypes()[location.archetype_id];
    let id_of = |component: usize| {
        archetype
            .get_archetype_component_id(bevy::ecs::component::ComponentId::new(component))
            .map(|id| id.index())
    };
    let mut expected = vec![id_of(dense).unwrap(), id_of(sparse).unwrap()];
    expected.sort();
    assert_ne!(id_of(other), None);
    assert_eq!(id_of(missing), None);

    let components = vec![sparse, missing, dense];
    let mut reads = ArchetypeAccess::new();
    declare_archetype_reads(&components, archetype, &mut reads);
    assert_eq!(reads.reads(), expected);
    assert!(reads.writes().is_empty());

    let mut writes = ArchetypeAccess::new();
    declare_archetype_writes(&components, archetype, &mut writes);
    assert_eq!(writes.reads(), expected);
    assert_eq!(writes.writes(), expected);
}

#[test]
fn fetches_declare_archetype_access() {
    let mut world = World::new();
    let dense = world.init_component::<Dense>().index();
    let sparse = world.init_component::<Sparse>().index();
    let entity = world.spawn().insert(Dense(1)).id();
    let location = world.entity(entity).location();
    let archetype = &world.archetypes()[location.archetype_id];
    let dense_id = archetype
        .get_archetype_component_id(bevy::ecs::component::ComponentId::new(dense))
        .map(|id| id.index())
        .unwrap();
    let mut registry = registry_of(&[dense, sparse]);
    let one = OneQueryState::init(&mut registry);
    let all = AllQueryState::init(&mut registry);

    let mut access = ArchetypeAccess::new();
    ReadTraitFetch::update_archetype_component_access(&one, archetype, &mut access);
    assert_eq!(access.reads(), vec![dense_id]);
    assert!(access.writes().is_empty());

    let mut access = ArchetypeAccess::new();
    WriteTraitFetch::update_archetype_component_access(&one, archetype, &mut access);
    assert_eq!(access.reads(), vec![dense_id]);
    assert_eq!(access.writes(), vec![dense_id]);

    let mut access = ArchetypeAccess::new();
    ReadAllTraitsFetch::<()>::update_archetype_component_access(&all, archetype, &mut access);
    assert_eq!(access.reads(), vec![dense_id]);
    assert!(access.writes().is_empty());

    let mut access = ArchetypeAccess::new();
    WriteAllTraitsFetch::<()>::update_archetype_component_access(&all, archetype, &mut access);
    assert_eq!(access.reads(), vec![dense_id]);
    assert_eq!(access.writes(), vec![dense_id]);
}

#[test]
fn the_largest_index_cannot_be_declared() {
    assert!(is_declarable(&vec![0, 1, usize::MAX - 1]));
    assert!(!is_declarable(&vec![0, usize::MAX, 1]));
    assert!(is_declarable(&Vec::new()));
}

#[test]
fn archetype_components_of_a_world_can_be_declared() {
    let mut world = World::new();
    let dense = world.init_component::<Dense>().index();
    let sparse = world.init_component::<Sparse>().index();
    let entity = world.spawn().insert(Dense(1)).insert(Sparse(1)).id();
    let location = world.entity(entity).location();
    let archetype = &world.archetypes()[location.archetype_id];
    assert!(is_archetype_declarable(&vec![dense, sparse, 500], archetype));
    assert!(is_archetype_declarable(&Vec::new(), archetype));
}
