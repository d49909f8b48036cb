//! What holds of the registry, the matching predicates and the fetches taken
//! together.

use crate::access::admits_reads;
use crate::access::admits_writes;
use crate::access::compatible;
use crate::access::component_reads;
use crate::access::component_writes;
use crate::access::writes_declared;
use crate::access::ComponentAccess;
use crate::walk::present_count;
use crate::walk::sparse_holds;
use crate::walk::sparse_refs;
use crate::walk::table_refs;
use crate::fetch::first_match;
use crate::fetch::lemma_first_match;
use crate::fetch::locate;
use crate::fetch::Located;
use crate::matching::lemma_match_count_zero;
use crate::matching::match_count;
use crate::registry::components_of;
use crate::registry::meta_of;
use crate::registry::stored_as;
use crate::registry::Registration;
use crate::registry::RegistryView;
use crate::registry::StorageType;
use crate::registry::TraitImplMeta;
use vstd::prelude::*;

verus! {

/// Registering a component a second time changes nothing, whatever storage
/// and metadata the second registration names: the registry holds as many
/// components as after the first.
pub proof fn law_registration_idempotent<Ctor>(
    registry: RegistryView<Ctor>,
    component: usize,
    storage: StorageType,
    meta: TraitImplMeta<Ctor>,
    again_storage: StorageType,
    again_meta: TraitImplMeta<Ctor>,
)
    ensures
        registry.register(component, storage, meta).register(component, again_storage, again_meta)
            == registry.register(component, storage, meta),
        registry.register(component, storage, meta).register(
            component,
            again_storage,
            again_meta,
        ).entries.len() == registry.register(component, storage, meta).entries.len(),
{
    let once = registry.register(component, storage, meta);
    if !registry.has(component) {
        let n = registry.entries.len() as int;
        assert(components_of(once.entries)[n] == component);
    }
    assert(once.has(component));
}

/// A sealed registry stays sealed: sealing again changes nothing, and a
/// registry that `register` accepts is never a sealed one, so that nothing
/// is registered once a query has been built.
pub proof fn law_seal_monotone<Ctor>(
    registry: RegistryView<Ctor>,
    component: usize,
    storage: StorageType,
    meta: TraitImplMeta<Ctor>,
)
    ensures
        registry.seal().sealed,
        registry.seal().entries == registry.entries,
        registry.seal().seal() == registry.seal(),
        registry.register(component, storage, meta).sealed == registry.sealed,
{
}

/// If exactly one of the components is in the set, only one position holds
/// such a component.
pub proof fn lemma_single_match(components: Seq<usize>, present: Set<usize>, i: int, j: int)
    requires
        match_count(components, present) == 1,
        0 <= i < components.len(),
        0 <= j < components.len(),
        present.contains(components[i]),
        present.contains(components[j]),
    ensures
        i == j,
    decreases components.len(),
{
    let rest = components.drop_last();
    let n = components.len() - 1;
    lemma_match_count_zero(rest, present);
    if present.contains(components.last()) {
        if i < n {
            assert(present.contains(rest[i]));
        }
        if j < n {
            assert(present.contains(rest[j]));
        }
    } else {
        lemma_single_match(rest, present, i, j);
    }
}

/// Two positions with components in the set make a count of two or more.
pub proof fn lemma_two_matches(components: Seq<usize>, present: Set<usize>, i: int, j: int)
    requires
        0 <= i < j < components.len(),
        present.contains(components[i]),
        present.contains(components[j]),
    ensures
        match_count(components, present) >= 2,
    decreases components.len(),
{
    let rest = components.drop_last();
    let n = components.len() - 1;
    if j == n {
        lemma_match_count_zero(rest, present);
        assert(present.contains(rest[i]));
    } else {
        lemma_two_matches(rest, present, i, j);
    }
}

/// For a batch with exactly one of a query's components, the fetch settles
/// on that component and on no other: whatever position holds a component
/// of the batch is the position that `locate` names. The table's columns
/// are taken to be among the batch's components.
pub proof fn law_single_match_exclusive(
    components: Seq<usize>,
    table: Set<usize>,
    batch: Set<usize>,
    i: int,
)
    requires
        match_count(components, batch) == 1,
        table.subset_of(batch),
        0 <= i < components.len(),
        batch.contains(components[i]),
    ensures
        locate(components, table, batch) == if table.contains(components[i]) {
            Located::Table(i)
        } else {
            Located::SparseSet(i)
        },
{
    lemma_first_match(components, table);
    lemma_first_match(components, batch);
    let t = first_match(components, table);
    let b = first_match(components, batch);
    if t < components.len() {
        assert(batch.contains(components[t]));
        lemma_single_match(components, batch, i, t);
    } else {
        if b < i {
            lemma_single_match(components, batch, i, b);
        }
        assert(!table.contains(components[i]));
    }
}

/// A batch with two or more of a query's components is not one the query
/// for exactly one implementor visits: the count that the matching predicate
/// compares with one is at least two.
pub proof fn law_single_match_rejects(
    components: Seq<usize>,
    present: Set<usize>,
    i: int,
    j: int,
)
    requires
        0 <= i < components.len(),
        0 <= j < components.len(),
        i != j,
        present.contains(components[i]),
        present.contains(components[j]),
    ensures
        match_count(components, present) != 1,
{
    if i < j {
        lemma_two_matches(components, present, i, j);
    } else {
        lemma_two_matches(components, present, j, i);
    }
}

/// One more component at the end adds its reference at the end, if the
/// table has a column for it.
pub proof fn lemma_table_refs_push<Ctor>(
    components: Seq<usize>,
    metas: Seq<TraitImplMeta<Ctor>>,
    columns: Set<usize>,
    row: usize,
    from: int,
    component: usize,
    meta: TraitImplMeta<Ctor>,
)
    requires
        0 <= from <= components.len(),
        metas.len() == components.len(),
    ensures
        table_refs(components.push(component), metas.push(meta), columns, row, from).len()
            == table_refs(components, metas, columns, row, from).len() + if columns.contains(
            component,
        ) {
            1int
        } else {
            0int
        },
    decreases components.len() - from,
{
    let longer = components.push(component);
    let longer_metas = metas.push(meta);
    if from < components.len() {
        lemma_table_refs_push(components, metas, columns, row, from + 1, component, meta);
        assert(longer[from] == components[from]);
    } else {
        assert(longer[from] == component);
        assert(table_refs(longer, longer_metas, columns, row, from + 1).len() == 0);
    }
}

/// One more component at the end adds its reference at the end, if its
/// sparse set holds the entity.
pub proof fn lemma_sparse_refs_push<Ctor>(
    components: Seq<usize>,
    metas: Seq<TraitImplMeta<Ctor>>,
    members: Map<usize, Set<u64>>,
    entity: u64,
    from: int,
    component: usize,
    meta: TraitImplMeta<Ctor>,
)
    requires
        0 <= from <= components.len(),
        metas.len() == components.len(),
    ensures
        sparse_refs(components.push(component), metas.push(meta), members, entity, from).len()
            == sparse_refs(components, metas, members, entity, from).len() + if sparse_holds(
            members,
            component,
            entity,
        ) {
            1int
        } else {
            0int
        },
    decreases components.len() - from,
{
    let longer = components.push(component);
    let longer_metas = metas.push(meta);
    if from < components.len() {
        lemma_sparse_refs_push(components, metas, members, entity, from + 1, component, meta);
        assert(longer[from] == components[from]);
    } else {
        assert(longer[from] == component);
        assert(sparse_refs(longer, longer_metas, members, entity, from + 1).len() == 0);
    }
}

/// The walk over an entity's implementors yields as many references as the
/// registry has implementors present on the entity, the table implementors
/// counted by their columns and the sparse-set implementors by their sets:
/// never more than the registry has registrations.
pub proof fn law_all_match_complete<Ctor>(
    entries: Seq<Registration<Ctor>>,
    columns: Set<usize>,
    members: Map<usize, Set<u64>>,
    row: usize,
    entity: u64,
)
    ensures
        (table_refs(
            components_of(stored_as(entries, StorageType::Table)),
            meta_of(stored_as(entries, StorageType::Table)),
            columns,
            row,
            0,
        ) + sparse_refs(
            components_of(stored_as(entries, StorageType::SparseSet)),
            meta_of(stored_as(entries, StorageType::SparseSet)),
            members,
            entity,
            0,
        )).len() == present_count(entries, columns, members, entity),
        present_count(entries, columns, members, entity) <= entries.len(),
    decreases entries.len(),
{
    if entries.len() > 0 {
        let rest = entries.drop_last();
        let last = entries.last();
        law_all_match_complete(rest, columns, members, row, entity);
        let t = stored_as(rest, StorageType::Table);
        let s = stored_as(rest, StorageType::SparseSet);
        match last.storage {
            StorageType::Table => {
                assert(components_of(t.push(last)) =~= components_of(t).push(last.component));
                assert(meta_of(t.push(last)) =~= meta_of(t).push(last.meta));
                lemma_table_refs_push(
                    components_of(t),
                    meta_of(t),
                    columns,
                    row,
                    0,
                    last.component,
                    last.meta,
                );
            },
            StorageType::SparseSet => {
                assert(components_of(s.push(last)) =~= components_of(s).push(last.component));
                assert(meta_of(s.push(last)) =~= meta_of(s).push(last.meta));
                lemma_sparse_refs_push(
                    components_of(s),
                    meta_of(s),
                    members,
                    entity,
                    0,
                    last.component,
                    last.meta,
                );
            },
        }
    }
}

/// Two queries that have both declared exclusive access to a component
/// cannot run at the same time, and neither record admits another
/// declaration for that component.
pub proof fn law_write_exclusive(
    first_before: ComponentAccess,
    first: ComponentAccess,
    first_components: Seq<usize>,
    second_before: ComponentAccess,
    second: ComponentAccess,
    second_components: Seq<usize>,
    component: usize,
)
    requires
        writes_declared(first_before, first, first_components),
        writes_declared(second_before, second, second_components),
        first_components.contains(component),
        second_components.contains(component),
    ensures
        !compatible(first, second),
        !admits_writes(first, second_components),
        !admits_reads(first, second_components),
{
    assert(first_components.to_set().contains(component));
    assert(second_components.to_set().contains(component));
    assert(component_writes(first).contains(component));
    assert(component_writes(second).contains(component));
    assert(component_reads(second).contains(component));
    assert(component_reads(first).contains(component));
    let k = choose|k: int| 0 <= k < second_components.len() && second_components[k] == component;
    assert(component_writes(first).contains(second_components[k]));
}

} // verus!
