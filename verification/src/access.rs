//! Access declarations: what a trait query tells the host's access trackers
//! before it runs, and when a declaration conflicts with one already made.

use crate::storage::archetype_component_id;
use crate::storage::archetype_component_ids;
use bevy::ecs::archetype::Archetype;
use bevy::ecs::archetype::ArchetypeComponentId;
use bevy::ecs::component::ComponentId;
use bevy::ecs::query::Access;
use bevy::ecs::query::FilteredAccess;
use vstd::prelude::*;

verus! {

/// The host's record of the components that one query reads and writes: a
/// `FilteredAccess` of component identifiers. The verifier does not look
/// inside; what the record holds goes by the names below.
#[verifier::external_body]
pub struct ComponentAccess {
    inner: FilteredAccess<ComponentId>,
}

/// The host's record of the archetype components that one query reads and
/// writes: an `Access` of archetype component identifiers. The verifier does
/// not look inside; what the record holds goes by the names below.
#[verifier::external_body]
pub struct ArchetypeAccess {
    inner: Access<ArchetypeComponentId>,
}

/// The components that a query may read; those it may write are among them.
pub uninterp spec fn component_reads(access: ComponentAccess) -> Set<usize>;

/// The components that a query may write.
pub uninterp spec fn component_writes(access: ComponentAccess) -> Set<usize>;

/// Whether a query may read every component there is.
pub uninterp spec fn component_reads_all(access: ComponentAccess) -> bool;

/// The components that an entity must have for the query to visit it.
pub uninterp spec fn component_with(access: ComponentAccess) -> Set<usize>;

/// The components that an entity must not have for the query to visit it.
pub uninterp spec fn component_without(access: ComponentAccess) -> Set<usize>;

/// The archetype components that a query may read; those it may write are
/// among them.
pub uninterp spec fn archetype_reads(access: ArchetypeAccess) -> Set<usize>;

/// The archetype components that a query may write.
pub uninterp spec fn archetype_writes(access: ArchetypeAccess) -> Set<usize>;

/// Whether a query may read every archetype component there is.
pub uninterp spec fn archetype_reads_all(access: ArchetypeAccess) -> bool;

/// `FilteredAccess::default`: a record with nothing in it.
#[verifier::external_body]
fn component_access_default() -> (r: ComponentAccess)
    ensures
        component_reads(r) == Set::<usize>::empty(),
        component_writes(r) == Set::<usize>::empty(),
        !component_reads_all(r),
        component_with(r) == Set::<usize>::empty(),
        component_without(r) == Set::<usize>::empty(),
{
    ComponentAccess { inner: FilteredAccess::default() }
}

/// `Access::has_read` on the access under the filter: the component is read
/// if everything is, or if it was added as read or written.
#[verifier::external_body]
fn component_has_read(access: &ComponentAccess, component: usize) -> (r: bool)
    ensures
        r == (component_reads_all(*access) || component_reads(*access).contains(component)),
{
    access.inner.access().has_read(ComponentId::new(component))
}

/// `Access::has_read_all` on the access under the filter.
#[verifier::external_body]
fn component_has_read_all(access: &ComponentAccess) -> (r: bool)
    ensures
        r == component_reads_all(*access),
{
    access.inner.access().has_read_all()
}

/// `Access::has_write` on the access under the filter: the component is
/// written if it was added as written.
#[verifier::external_body]
fn component_has_write(access: &ComponentAccess, component: usize) -> (r: bool)
    ensures
        r == component_writes(*access).contains(component),
{
    access.inner.access().has_write(ComponentId::new(component))
}

/// `FilteredAccess::add_read`: the component becomes read and required.
/// The bit sets grow to one past the component's index.
#[verifier::external_body]
fn component_add_read(access: &mut ComponentAccess, component: usize)
    requires
        component < usize::MAX,
    ensures
        component_reads(*final(access)) == component_reads(*old(access)).insert(component),
        component_writes(*final(access)) == component_writes(*old(access)),
        component_reads_all(*final(access)) == component_reads_all(*old(access)),
        component_with(*final(access)) == component_with(*old(access)).insert(component),
        component_without(*final(access)) == component_without(*old(access)),
{
    access.inner.add_read(ComponentId::new(component))
}

/// `FilteredAccess::add_write`: the component becomes read, written and
/// required. The bit sets grow to one past the component's index.
#[verifier::external_body]
fn component_add_write(access: &mut ComponentAccess, component: usize)
    requires
        component < usize::MAX,
    ensures
        component_reads(*final(access)) == component_reads(*old(access)).insert(component),
        component_writes(*final(access)) == component_writes(*old(access)).insert(component),
        component_reads_all(*final(access)) == component_reads_all(*old(access)),
        component_with(*final(access)) == component_with(*old(access)).insert(component),
        component_without(*final(access)) == component_without(*old(access)),
{
    access.inner.add_write(ComponentId::new(component))
}

/// `FilteredAccess::read_all`: every component becomes read.
#[verifier::external_body]
fn component_read_all(access: &mut ComponentAccess)
    ensures
        component_reads(*final(access)) == component_reads(*old(access)),
        component_writes(*final(access)) == component_writes(*old(access)),
        component_reads_all(*final(access)),
        component_with(*final(access)) == component_with(*old(access)),
        component_without(*final(access)) == component_without(*old(access)),
{
    access.inner.read_all()
}

/// `Access::is_compatible` on the accesses under the two filters.
#[verifier::external_body]
fn component_is_compatible(a: &ComponentAccess, b: &ComponentAccess) -> (r: bool)
    ensures
        r == compatible(*a, *b),
{
    a.inner.access().is_compatible(b.inner.access())
}

/// `Access::default`: a record with nothing in it.
#[verifier::external_body]
fn archetype_access_default() -> (r: ArchetypeAccess)
    ensures
        archetype_reads(r) == Set::<usize>::empty(),
        archetype_writes(r) == Set::<usize>::empty(),
        !archetype_reads_all(r),
{
    ArchetypeAccess { inner: Access::default() }
}

/// `Access::add_read`: the archetype component becomes read. The bit set
/// grows to one past the index.
#[verifier::external_body]
fn archetype_add_read(access: &mut ArchetypeAccess, id: usize)
    requires
        id < usize::MAX,
    ensures
        archetype_reads(*final(access)) == archetype_reads(*old(access)).insert(id),
        archetype_writes(*final(access)) == archetype_writes(*old(access)),
        archetype_reads_all(*final(access)) == archetype_reads_all(*old(access)),
{
    access.inner.add_read(ArchetypeComponentId::new(id))
}

/// `Access::add_write`: the archetype component becomes read and written.
/// The bit sets grow to one past the index.
#[verifier::external_body]
fn archetype_add_write(access: &mut ArchetypeAccess, id: usize)
    requires
        id < usize::MAX,
    ensures
        archetype_reads(*final(access)) == archetype_reads(*old(access)).insert(id),
        archetype_writes(*final(access)) == archetype_writes(*old(access)).insert(id),
        archetype_reads_all(*final(access)) == archetype_reads_all(*old(access)),
{
    access.inner.add_write(ArchetypeComponentId::new(id))
}

/// `Access::reads_and_writes`, each identifier turned to its index: the
/// read archetype components in rising order.
#[verifier::external_body]
fn archetype_reads_list(access: &ArchetypeAccess) -> (r: Vec<usize>)
    ensures
        r@.to_set() == archetype_reads(*access),
        forall|i: int, j: int| 0 <= i < j < r@.len() ==> r@[i] < r@[j],
{
    access.inner.reads_and_writes().map(|id| id.index()).collect()
}

/// `Access::writes`, each identifier turned to its index: the written
/// archetype components in rising order.
#[verifier::external_body]
fn archetype_writes_list(access: &ArchetypeAccess) -> (r: Vec<usize>)
    ensures
        r@.to_set() == archetype_writes(*access),
        forall|i: int, j: int| 0 <= i < j < r@.len() ==> r@[i] < r@[j],
{
    access.inner.writes().map(|id| id.index()).collect()
}

/// Whether two queries with these accesses may run at the same time: neither
/// writes what the other reads or writes.
pub open spec fn compatible(a: ComponentAccess, b: ComponentAccess) -> bool {
    if component_reads_all(a) {
        component_writes(b) == Set::<usize>::empty()
    } else if component_reads_all(b) {
        component_writes(a) == Set::<usize>::empty()
    } else {
        component_writes(a).disjoint(component_reads(b)) && component_reads(a).disjoint(
            component_writes(b),
        )
    }
}

/// Whether shared access to each of the components can be declared: none of
/// them is written already.
pub open spec fn admits_reads(access: ComponentAccess, components: Seq<usize>) -> bool {
    forall|i: int|
        0 <= i < components.len() ==> !component_writes(access).contains(#[trigger] components[i])
}

/// Whether exclusive access to each of the components can be declared: none
/// of them is read or written already.
pub open spec fn admits_writes(access: ComponentAccess, components: Seq<usize>) -> bool {
    !component_reads_all(access) && forall|i: int|
        0 <= i < components.len() ==> !component_reads(access).contains(#[trigger] components[i])
}

/// The components are small enough to be declared: a tracker keeps one bit
/// for each index up to the component's own.
pub open spec fn declarable(components: Seq<usize>) -> bool {
    forall|i: int| 0 <= i < components.len() ==> #[trigger] components[i] < usize::MAX
}

/// What declaring shared access to each of the components makes of a
/// record: the components become read and required, and nothing else
/// changes.
pub open spec fn reads_declared(
    before: ComponentAccess,
    after: ComponentAccess,
    components: Seq<usize>,
) -> bool {
    &&& component_reads(after) == component_reads(before).union(components.to_set())
    &&& component_writes(after) == component_writes(before)
    &&& component_reads_all(after) == component_reads_all(before)
    &&& component_with(after) == component_with(before).union(components.to_set())
    &&& component_without(after) == component_without(before)
}

/// What declaring exclusive access to each of the components makes of a
/// record: the components become read, written and required, and nothing
/// else changes.
pub open spec fn writes_declared(
    before: ComponentAccess,
    after: ComponentAccess,
    components: Seq<usize>,
) -> bool {
    &&& component_reads(after) == component_reads(before).union(components.to_set())
    &&& component_writes(after) == component_writes(before).union(components.to_set())
    &&& component_reads_all(after) == component_reads_all(before)
    &&& component_with(after) == component_with(before).union(components.to_set())
    &&& component_without(after) == component_without(before)
}

impl ComponentAccess {
    /// A record with nothing in it.
    pub fn new() -> (r: Self)
        ensures
            component_reads(r) == Set::<usize>::empty(),
            component_writes(r) == Set::<usize>::empty(),
            !component_reads_all(r),
            component_with(r) == Set::<usize>::empty(),
            component_without(r) == Set::<usize>::empty(),
    {
        component_access_default()
    }

    /// Whether the component is read.
    pub fn has_read(&self, component: usize) -> (r: bool)
        ensures
            r == (component_reads_all(*self) || component_reads(*self).contains(component)),
    {
        component_has_read(self, component)
    }

    /// Whether every component is read.
    pub fn has_read_all(&self) -> (r: bool)
        ensures
            r == component_reads_all(*self),
    {
        component_has_read_all(self)
    }

    /// Whether the component is written.
    pub fn has_write(&self, component: usize) -> (r: bool)
        ensures
            r == component_writes(*self).contains(component),
    {
        component_has_write(self, component)
    }

    /// Records shared access to the component: it becomes read and required.
    pub fn add_read(&mut self, component: usize)
        requires
            component < usize::MAX,
        ensures
            component_reads(*final(self)) == component_reads(*old(self)).insert(component),
            component_writes(*final(self)) == component_writes(*old(self)),
            component_reads_all(*final(self)) == component_reads_all(*old(self)),
            component_with(*final(self)) == component_with(*old(self)).insert(component),
            component_without(*final(self)) == component_without(*old(self)),
    {
        component_add_read(self, component)
    }

    /// Records exclusive access to the component: it becomes read, written
    /// and required.
    pub fn add_write(&mut self, component: usize)
        requires
            component < usize::MAX,
        ensures
            component_reads(*final(self)) == component_reads(*old(self)).insert(component),
            component_writes(*final(self)) == component_writes(*old(self)).insert(component),
            component_reads_all(*final(self)) == component_reads_all(*old(self)),
            component_with(*final(self)) == component_with(*old(self)).insert(component),
            component_without(*final(self)) == component_without(*old(self)),
    {
        component_add_write(self, component)
    }

    /// Records shared access to every component.
    pub fn read_all(&mut self)
        ensures
            component_reads(*final(self)) == component_reads(*old(self)),
            component_writes(*final(self)) == component_writes(*old(self)),
            component_reads_all(*final(self)),
            component_with(*final(self)) == component_with(*old(self)),
            component_without(*final(self)) == component_without(*old(self)),
    {
        component_read_all(self)
    }

    /// Whether a query with this access and one with the other may run at
    /// the same time.
    pub fn is_compatible(&self, other: &ComponentAccess) -> (r: bool)
        ensures
            r == compatible(*self, *other),
    {
        component_is_compatible(self, other)
    }

    /// Whether shared access to each of the components can be declared.
    pub fn admits_reads(&self, components: &Vec<usize>) -> (r: bool)
        ensures
            r == admits_reads(*self, components@),
    {
        let mut i: usize = 0;
        while i < components.len()
            invariant
                i <= components@.len(),
                admits_reads(*self, components@.take(i as int)),
            decreases components@.len() - i,
        {
            if self.has_write(components[i]) {
                return false;
            }
            proof {
                let next = components@.take(i + 1);
                assert forall|j: int| 0 <= j < next.len() implies !component_writes(
                    *self,
                ).contains(#[trigger] next[j]) by {
                    if j < i {
                        assert(components@.take(i as int)[j] == next[j]);
                    }
                }
            }
            i += 1;
        }
        proof {
            assert(components@.take(i as int) =~= components@);
        }
        true
    }

    /// Whether exclusive access to each of the components can be declared.
    pub fn admits_writes(&self, components: &Vec<usize>) -> (r: bool)
        ensures
            r == admits_writes(*self, components@),
    {
        if self.has_read_all() {
            return false;
        }
        let mut i: usize = 0;
        while i < components.len()
            invariant
                i <= components@.len(),
                !component_reads_all(*self),
                admits_writes(*self, components@.take(i as int)),
            decreases components@.len() - i,
        {
            if self.has_read(components[i]) {
                return false;
            }
            proof {
                let next = components@.take(i + 1);
                assert forall|j: int| 0 <= j < next.len() implies !component_reads(
                    *self,
                ).contains(#[trigger] next[j]) by {
                    if j < i {
                        assert(components@.take(i as int)[j] == next[j]);
                    }
                }
            }
            i += 1;
        }
        proof {
            assert(components@.take(i as int) =~= components@);
        }
        true
    }
}

impl ArchetypeAccess {
    /// A record with nothing in it.
    pub fn new() -> (r: Self)
        ensures
            archetype_reads(r) == Set::<usize>::empty(),
            archetype_writes(r) == Set::<usize>::empty(),
            !archetype_reads_all(r),
    {
        archetype_access_default()
    }

    /// Records shared access to the archetype component.
    pub fn add_read(&mut self, id: usize)
        requires
            id < usize::MAX,
        ensures
            archetype_reads(*final(self)) == archetype_reads(*old(self)).insert(id),
            archetype_writes(*final(self)) == archetype_writes(*old(self)),
            archetype_reads_all(*final(self)) == archetype_reads_all(*old(self)),
    {
        archetype_add_read(self, id)
    }

    /// Records exclusive access to the archetype component.
    pub fn add_write(&mut self, id: usize)
        requires
            id < usize::MAX,
        ensures
            archetype_reads(*final(self)) == archetype_reads(*old(self)).insert(id),
            archetype_writes(*final(self)) == archetype_writes(*old(self)).insert(id),
            archetype_reads_all(*final(self)) == archetype_reads_all(*old(self)),
    {
        archetype_add_write(self, id)
    }

    /// The read archetype components, in rising order.
    pub fn reads(&self) -> (r: Vec<usize>)
        ensures
            r@.to_set() == archetype_reads(*self),
            forall|i: int, j: int| 0 <= i < j < r@.len() ==> r@[i] < r@[j],
    {
        archetype_reads_list(self)
    }

    /// The written archetype components, in rising order.
    pub fn writes(&self) -> (r: Vec<usize>)
        ensures
            r@.to_set() == archetype_writes(*self),
            forall|i: int, j: int| 0 <= i < j < r@.len() ==> r@[i] < r@[j],
    {
        archetype_writes_list(self)
    }
}

/// Whether every component is small enough to be declared.
pub fn is_declarable(components: &Vec<usize>) -> (r: bool)
    ensures
        r == declarable(components@),
{
    let mut i: usize = 0;
    while i < components.len()
        invariant
            i <= components@.len(),
            forall|j: int| 0 <= j < i ==> #[trigger] components@[j] < usize::MAX,
        decreases components@.len() - i,
    {
        if components[i] == usize::MAX {
            return false;
        }
        i += 1;
    }
    true
}

/// Declares shared access to each of the components.
pub fn declare_reads(components: &Vec<usize>, access: &mut ComponentAccess)
    requires
        declarable(components@),
        admits_reads(*old(access), components@),
    ensures
        reads_declared(*old(access), *final(access), components@),
{
    let mut i: usize = 0;
    proof {
        assert(components@.take(0).to_set() =~= Set::<usize>::empty());
    }
    while i < components.len()
        invariant
            i <= components@.len(),
            declarable(components@),
            component_reads(*access) == component_reads(*old(access)).union(
                components@.take(i as int).to_set(),
            ),
            component_writes(*access) == component_writes(*old(access)),
            component_reads_all(*access) == component_reads_all(*old(access)),
            component_with(*access) == component_with(*old(access)).union(
                components@.take(i as int).to_set(),
            ),
            component_without(*access) == component_without(*old(access)),
        decreases components@.len() - i,
    {
        let component = components[i];
        access.add_read(component);
        proof {
            lemma_take_step(components@, i as int);
        }
        i += 1;
    }
    proof {
        assert(components@.take(i as int) =~= components@);
    }
}

/// Declares exclusive access to each of the components.
pub fn declare_writes(components: &Vec<usize>, access: &mut ComponentAccess)
    requires
        declarable(components@),
        admits_writes(*old(access), components@),
    ensures
        writes_declared(*old(access), *final(access), components@),
{
    let mut i: usize = 0;
    proof {
        assert(components@.take(0).to_set() =~= Set::<usize>::empty());
    }
    while i < components.len()
        invariant
            i <= components@.len(),
            declarable(components@),
            component_reads(*access) == component_reads(*old(access)).union(
                components@.take(i as int).to_set(),
            ),
            component_writes(*access) == component_writes(*old(access)).union(
                components@.take(i as int).to_set(),
            ),
            component_reads_all(*access) == component_reads_all(*old(access)),
            component_with(*access) == component_with(*old(access)).union(
                components@.take(i as int).to_set(),
            ),
            component_without(*access) == component_without(*old(access)),
        decreases components@.len() - i,
    {
        let component = components[i];
        access.add_write(component);
        proof {
            lemma_take_step(components@, i as int);
        }
        i += 1;
    }
    proof {
        assert(components@.take(i as int) =~= components@);
    }
}

/// One more element taken from a sequence is one more element in the set of
/// what was taken.
pub proof fn lemma_take_step(s: Seq<usize>, i: int)
    requires
        0 <= i < s.len(),
    ensures
        s.take(i + 1).to_set() == s.take(i).to_set().insert(s[i]),
{
    assert(s.take(i + 1) =~= s.take(i).push(s[i]));
    s.take(i).lemma_push_to_set_commute(s[i]);
}

/// The archetype components under which an archetype tracks those of the
/// given components that it has.
pub open spec fn archetype_share(components: Seq<usize>, ids: Map<usize, usize>) -> Set<usize> {
    Set::new(
        |id: usize|
            exists|i: int|
                0 <= i < components.len() && ids.contains_key(#[trigger] components[i])
                    && ids[components[i]] == id,
    )
}

/// Every archetype component of the given components is small enough to be
/// declared.
pub open spec fn archetype_declarable(components: Seq<usize>, ids: Map<usize, usize>) -> bool {
    forall|i: int|
        0 <= i < components.len() && ids.contains_key(#[trigger] components[i])
            ==> ids[components[i]] < usize::MAX
}

/// One more component taken adds its archetype component, if the archetype
/// has it.
pub proof fn lemma_archetype_share_step(components: Seq<usize>, ids: Map<usize, usize>, i: int)
    requires
        0 <= i < components.len(),
    ensures
        archetype_share(components.take(i + 1), ids) == if ids.contains_key(components[i]) {
            archetype_share(components.take(i), ids).insert(ids[components[i]])
        } else {
            archetype_share(components.take(i), ids)
        },
{
    let shorter = components.take(i);
    let longer = components.take(i + 1);
    let expected = if ids.contains_key(components[i]) {
        archetype_share(shorter, ids).insert(ids[components[i]])
    } else {
        archetype_share(shorter, ids)
    };
    assert forall|id: usize| archetype_share(longer, ids).contains(id) implies expected.contains(id) by {
        let j = choose|j: int|
            0 <= j < longer.len() && ids.contains_key(#[trigger] longer[j]) && ids[longer[j]]
                == id;
        if j < i {
            assert(ids.contains_key(shorter[j]) && ids[shorter[j]] == id);
        }
    }
    assert forall|id: usize| expected.contains(id) implies archetype_share(longer, ids).contains(id) by {
        if archetype_share(shorter, ids).contains(id) {
            let j = choose|j: int|
                0 <= j < shorter.len() && ids.contains_key(#[trigger] shorter[j])
                    && ids[shorter[j]] == id;
            assert(ids.contains_key(longer[j]) && ids[longer[j]] == id);
        } else {
            assert(ids.contains_key(longer[i]) && ids[longer[i]] == id);
        }
    }
    assert(archetype_share(longer, ids) =~= expected);
}

/// What declaring shared access to an archetype's share of the components
/// makes of a record: the share becomes read, and nothing else changes.
pub open spec fn archetype_reads_declared(
    before: ArchetypeAccess,
    after: ArchetypeAccess,
    components: Seq<usize>,
    ids: Map<usize, usize>,
) -> bool {
    &&& archetype_reads(after) == archetype_reads(before).union(archetype_share(components, ids))
    &&& archetype_writes(after) == archetype_writes(before)
    &&& archetype_reads_all(after) == archetype_reads_all(before)
}

/// What declaring exclusive access to an archetype's share of the components
/// makes of a record: the share becomes read and written, and nothing else
/// changes.
pub open spec fn archetype_writes_declared(
    before: ArchetypeAccess,
    after: ArchetypeAccess,
    components: Seq<usize>,
    ids: Map<usize, usize>,
) -> bool {
    &&& archetype_reads(after) == archetype_reads(before).union(archetype_share(components, ids))
    &&& archetype_writes(after) == archetype_writes(before).union(
        archetype_share(components, ids),
    )
    &&& archetype_reads_all(after) == archetype_reads_all(before)
}

/// Whether every archetype component of the given components is small
/// enough to be declared.
pub fn is_archetype_declarable(components: &Vec<usize>, archetype: &Archetype) -> (r: bool)
    ensures
        r == archetype_declarable(components@, archetype_component_ids(*archetype)),
{
    let mut i: usize = 0;
    while i < components.len()
        invariant
            i <= components@.len(),
            forall|j: int|
                0 <= j < i && archetype_component_ids(*archetype).contains_key(
                    #[trigger] components@[j],
                ) ==> archetype_component_ids(*archetype)[components@[j]] < usize::MAX,
        decreases components@.len() - i,
    {
        if let Some(id) = archetype_component_id(archetype, components[i]) {
            if id == usize::MAX {
                return false;
            }
        }
        i += 1;
    }
    true
}

/// Declares shared access to the archetype's share of each of the
/// components.
pub fn declare_archetype_reads(
    components: &Vec<usize>,
    archetype: &Archetype,
    access: &mut ArchetypeAccess,
)
    requires
        archetype_declarable(components@, archetype_component_ids(*archetype)),
    ensures
        archetype_reads_declared(
            *old(access),
            *final(access),
            components@,
            archetype_component_ids(*archetype),
        ),
{
    let ghost ids = archetype_component_ids(*archetype);
    let mut i: usize = 0;
    proof {
        assert(archetype_share(components@.take(0), ids) =~= Set::<usize>::empty());
    }
    while i < components.len()
        invariant
            i <= components@.len(),
            ids == archetype_component_ids(*archetype),
            archetype_declarable(components@, ids),
            archetype_reads(*access) == archetype_reads(*old(access)).union(
                archetype_share(components@.take(i as int), ids),
            ),
            archetype_writes(*access) == archetype_writes(*old(access)),
            archetype_reads_all(*access) == archetype_reads_all(*old(access)),
        decreases components@.len() - i,
    {
        proof {
            lemma_archetype_share_step(components@, ids, i as int);
        }
        if let Some(id) = archetype_component_id(archetype, components[i]) {
            access.add_read(id);
        }
        i += 1;
    }
    proof {
        assert(components@.take(i as int) =~= components@);
    }
}

/// Declares exclusive access to the archetype's share of each of the
/// components.
pub fn declare_archetype_writes(
    components: &Vec<usize>,
    archetype: &Archetype,
    access: &mut ArchetypeAccess,
)
    requires
        archetype_declarable(components@, archetype_component_ids(*archetype)),
    ensures
        archetype_writes_declared(
            *old(access),
            *final(access),
            components@,
            archetype_component_ids(*archetype),
        ),
{
    let ghost ids = archetype_component_ids(*archetype);
    let mut i: usize = 0;
    proof {
        assert(archetype_share(components@.take(0), ids) =~= Set::<usize>::empty());
    }
    while i < components.len()
        invariant
            i <= components@.len(),
            ids == archetype_component_ids(*archetype),
            archetype_declarable(components@, ids),
            archetype_reads(*access) == archetype_reads(*old(access)).union(
                archetype_share(components@.take(i as int), ids),
            ),
            archetype_writes(*access) == archetype_writes(*old(access)).union(
                archetype_share(components@.take(i as int), ids),
            ),
            archetype_reads_all(*access) == archetype_reads_all(*old(access)),
        decreases components@.len() - i,
    {
        proof {
            lemma_archetype_share_step(components@, ids, i as int);
        }
        if let Some(id) = archetype_component_id(archetype, components[i]) {
            access.add_write(id);
        }
        i += 1;
    }
    proof {
        assert(components@.take(i as int) =~= components@);
    }
}

} // verus!
