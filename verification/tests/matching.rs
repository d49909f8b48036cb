use bevy_trait_query::all::AllQueryState;
use bevy_trait_query::matching::{any_match, count_matches};
use bevy_trait_query::one::OneQueryState;
use bevy_trait_query::registry::{StorageType, TraitImplMeta, TraitImplRegistry};
use std::cell::Cell;

fn registry_of(components: &[(usize, StorageType)]) -> TraitImplRegistry<u8> {
    let mut registry = TraitImplRegistry::new();
    for &(component, storage) in components {
        registry.register(component, storage, TraitImplMeta { size_bytes: 8, dyn_ctor: 0 });
    }
    registry
}

#[test]
fn count_matches_counts_hits() {
    let components = vec![2, 4, 6, 8];
    assert_eq!(count_matches(&components, &|c| c > 3), 3);
    assert_eq!(count_matches(&components, &|_| false), 0);
    assert_eq!(count_matches(&components, &|_| true), 4);
    assert_eq!(count_matches(&Vec::new(), &|_| true), 0);
}

#[test]
fn any_match_stops_at_the_first_hit() {
    let components = vec![2, 4, 6, 8];
    let asked = Cell::new(0);
    let hit = any_match(&components, &|c| {
        asked.set(asked.get() + 1);
        c == 4
    });
    assert!(hit);
    assert_eq!(asked.get(), 2);
    assert!(!any_match(&components, &|c| c == 5));
    assert!(!any_match(&Vec::new(), &|_| true));
}

#[test]
fn one_matches_a_batch_with_exactly_one_implementor() {
    let mut registry = registry_of(&[(1, StorageType::Table), (2, StorageType::SparseSet)]);
    let state = OneQueryState::init(&mut registry);
    assert!(state.matches_component_set(&|c| c == 1 || c == 40));
    assert!(state.matches_component_set(&|c| c == 2));
}

#[test]
fn one_rejects_a_batch_with_two_implementors() {
    let mut registry = registry_of(&[
        (1, StorageType::Table),
        (2, StorageType::SparseSet),
        (3, StorageType::Table),
    ]);
    let state = OneQueryState::init(&mut registry);
    assert!(!state.matches_component_set(&|c| c == 1 || c == 2));
    assert!(!state.matches_component_set(&|c| c == 1 || c == 3));
    assert!(!state.matches_component_set(&|_| true));
}

#[test]
fn one_rejects_a_batch_without_implementors() {
    let mut registry = registry_of(&[(1, StorageType::Table), (2, StorageType::SparseSet)]);
    let state = OneQueryState::init(&mut registry);
    assert!(!state.matches_component_set(&|c| c == 9));
    assert!(!state.matches_component_set(&|_| false));
}

#[test]
fn all_matches_a_batch_with_any_implementor() {
    let mut registry = registry_of(&[(1, StorageType::Table), (2, StorageType::SparseSet)]);
    let state = AllQueryState::init(&mut registry);
    assert!(state.matches_component_set(&|c| c == 1));
    assert!(state.matches_component_set(&|c| c == 2));
    assert!(state.matches_component_set(&|_| true));
}

#[test]
fn all_rejects_a_batch_without_implementors() {
    let mut registry = registry_of(&[(1, StorageType::Table), (2, StorageType::SparseSet)]);
    let state = AllQueryState::init(&mut registry);
    assert!(!state.matches_component_set(&|c| c == 9));
    assert!(!state.matches_component_set(&|_| false));
}
