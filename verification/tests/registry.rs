use bevy_trait_query::all::AllQueryState;
use bevy_trait_query::one::OneQueryState;
use bevy_trait_query::registry::{contains_id, copy_ids, copy_meta};
use bevy_trait_query::registry::{StorageType, TraitImplMeta, TraitImplRegistry};

fn meta(size_bytes: usize, tag: u32) -> TraitImplMeta<u32> {
    TraitImplMeta { size_bytes, dyn_ctor: tag }
}

#[test]
fn new_registry_is_empty_and_unsealed() {
    let registry: TraitImplRegistry<u32> = TraitImplRegistry::new();
    assert_eq!(registry.len(), 0);
    assert!(!registry.is_sealed());
    assert!(registry.components().is_empty());
    assert!(registry.table_components().is_empty());
    assert!(registry.sparse_components().is_empty());
}

#[test]
fn default_registry_is_empty_and_unsealed() {
    let registry: TraitImplRegistry<u32> = TraitImplRegistry::default();
    assert_eq!(registry.len(), 0);
    assert!(!registry.is_sealed());
}

#[test]
fn register_keeps_registration_order() {
    let mut registry = TraitImplRegistry::new();
    registry.register(7, StorageType::Table, meta(4, 70));
    registry.register(3, StorageType::SparseSet, meta(16, 30));
    registry.register(5, StorageType::Table, meta(1, 50));
    assert_eq!(registry.len(), 3);
    assert_eq!(registry.components(), &vec![7, 3, 5]);
    let sizes: Vec<usize> = registry.meta().iter().map(|m| m.size_bytes).collect();
    let tags: Vec<u32> = registry.meta().iter().map(|m| m.dyn_ctor).collect();
    assert_eq!(sizes, vec![4, 16, 1]);
    assert_eq!(tags, vec![70, 30, 50]);
}

#[test]
fn register_splits_by_storage() {
    let mut registry = TraitImplRegistry::new();
    registry.register(7, StorageType::Table, meta(4, 70));
    registry.register(3, StorageType::SparseSet, meta(16, 30));
    registry.register(5, StorageType::Table, meta(1, 50));
    registry.register(9, StorageType::SparseSet, meta(2, 90));
    assert_eq!(registry.table_components(), &vec![7, 5]);
    assert_eq!(registry.sparse_components(), &vec![3, 9]);
    let table_tags: Vec<u32> = registry.table_meta().iter().map(|m| m.dyn_ctor).collect();
    let sparse_tags: Vec<u32> = registry.sparse_meta().iter().map(|m| m.dyn_ctor).collect();
    assert_eq!(table_tags, vec![70, 50]);
    assert_eq!(sparse_tags, vec![30, 90]);
}

#[test]
fn register_twice_leaves_count_unchanged() {
    let mut registry = TraitImplRegistry::new();
    registry.register(7, StorageType::Table, meta(4, 70));
    registry.register(3, StorageType::SparseSet, meta(16, 30));
    assert_eq!(registry.len(), 2);
    registry.register(7, StorageType::Table, meta(4, 70));
    assert_eq!(registry.len(), 2);
    assert_eq!(registry.components(), &vec![7, 3]);
    assert_eq!(registry.table_components(), &vec![7]);
}

#[test]
fn register_twice_keeps_first_descriptor() {
    let mut registry = TraitImplRegistry::new();
    registry.register(7, StorageType::Table, meta(4, 70));
    registry.register(7, StorageType::SparseSet, meta(8, 71));
    assert_eq!(registry.len(), 1);
    assert_eq!(registry.meta()[0].size_bytes, 4);
    assert_eq!(registry.meta()[0].dyn_ctor, 70);
    assert_eq!(registry.table_components(), &vec![7]);
    assert!(registry.sparse_components().is_empty());
}

#[test]
fn contains_tells_registered_components() {
    let mut registry = TraitImplRegistry::new();
    registry.register(7, StorageType::Table, meta(4, 70));
    assert!(registry.contains(7));
    assert!(!registry.contains(8));
}

#[test]
fn seal_sets_sealed_and_keeps_entries() {
    let mut registry = TraitImplRegistry::new();
    registry.register(7, StorageType::Table, meta(4, 70));
    registry.seal();
    assert!(registry.is_sealed());
    assert_eq!(registry.components(), &vec![7]);
    registry.seal();
    assert!(registry.is_sealed());
    assert_eq!(registry.len(), 1);
}

#[test]
fn building_a_one_query_seals_the_registry() {
    let mut registry = TraitImplRegistry::new();
    registry.register(7, StorageType::Table, meta(4, 70));
    registry.register(3, StorageType::SparseSet, meta(16, 30));
    assert!(!registry.is_sealed());
    let state = OneQueryState::init(&mut registry);
    assert!(registry.is_sealed());
    assert_eq!(state.components(), &vec![7, 3]);
    let sizes: Vec<usize> = state.meta().iter().map(|m| m.size_bytes).collect();
    assert_eq!(sizes, vec![4, 16]);
    assert_eq!(registry.len(), 2);
}

#[test]
fn building_an_all_query_seals_the_registry() {
    let mut registry = TraitImplRegistry::new();
    registry.register(7, StorageType::Table, meta(4, 70));
    registry.register(3, StorageType::SparseSet, meta(16, 30));
    let state = AllQueryState::init(&mut registry);
    assert!(registry.is_sealed());
    assert_eq!(state.components(), &vec![7, 3]);
}

#[test]
fn two_queries_share_one_sealed_registry() {
    let mut registry = TraitImplRegistry::new();
    registry.register(1, StorageType::Table, meta(4, 10));
    let one = OneQueryState::init(&mut registry);
    let all = AllQueryState::init(&mut registry);
    assert!(registry.is_sealed());
    assert_eq!(one.components(), all.components());
}

#[test]
fn contains_id_finds_members_only() {
    let ids = vec![4, 8, 15];
    assert!(contains_id(&ids, 8));
    assert!(!contains_id(&ids, 16));
    assert!(!contains_id(&Vec::new(), 0));
}

#[test]
fn copies_are_equal_to_their_source() {
    let ids = vec![4, 8, 15];
    assert_eq!(copy_ids(&ids), ids);
    let metas = vec![meta(1, 2), meta(3, 4)];
    let copied = copy_meta(&metas);
    assert_eq!(copied.len(), 2);
    assert_eq!(copied[1].size_bytes, 3);
    assert_eq!(copied[1].dyn_ctor, 4);
}
