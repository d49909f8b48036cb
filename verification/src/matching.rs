//! Matching a query against the component set of a storage batch.

use vstd::prelude::*;

verus! {

/// How many of the components are in the set, counted with repetition.
pub open spec fn match_count(components: Seq<usize>, present: Set<usize>) -> nat
    decreases components.len(),
{
    if components.len() == 0 {
        0
    } else {
        match_count(components.drop_last(), present) + if present.contains(components.last()) {
            1nat
        } else {
            0nat
        }
    }
}

/// How many of the answers are `true`.
pub open spec fn count_true(answers: Seq<bool>) -> nat
    decreases answers.len(),
{
    if answers.len() == 0 {
        0
    } else {
        count_true(answers.drop_last()) + if answers.last() {
            1nat
        } else {
            0nat
        }
    }
}

/// The answers are what the membership test may return for the components,
/// one for one.
pub open spec fn answered<F: Fn(usize) -> bool>(
    test: &F,
    components: Seq<usize>,
    answers: Seq<bool>,
) -> bool {
    &&& answers.len() == components.len()
    &&& forall|i: int|
        0 <= i < components.len() ==> call_ensures(*test, (components[i],), #[trigger] answers[i])
}

/// The membership test can only answer as the set does, for each of the
/// components.
pub open spec fn decides<F: Fn(usize) -> bool>(
    test: &F,
    components: Seq<usize>,
    present: Set<usize>,
) -> bool {
    forall|i: int, answer: bool|
        0 <= i < components.len() && #[trigger] call_ensures(*test, (components[i],), answer)
            ==> answer == present.contains(components[i])
}

/// Answers that a set decides count as the set's members among the
/// components do.
pub proof fn lemma_decided_count<F: Fn(usize) -> bool>(
    test: &F,
    components: Seq<usize>,
    answers: Seq<bool>,
    present: Set<usize>,
)
    requires
        answered(test, components, answers),
        decides(test, components, present),
    ensures
        count_true(answers) == match_count(components, present),
    decreases components.len(),
{
    if components.len() > 0 {
        let n = components.len() - 1;
        assert(call_ensures(*test, (components[n],), answers[n]));
        assert forall|i: int| 0 <= i < n implies call_ensures(
            *test,
            (components.drop_last()[i],),
            #[trigger] answers.drop_last()[i],
        ) by {
            assert(call_ensures(*test, (components[i],), answers[i]));
        }
        assert forall|i: int, answer: bool|
            0 <= i < n && #[trigger] call_ensures(
                *test,
                (components.drop_last()[i],),
                answer,
            ) implies answer == present.contains(components.drop_last()[i]) by {
            assert(call_ensures(*test, (components[i],), answer));
        }
        lemma_decided_count(test, components.drop_last(), answers.drop_last(), present);
    }
}

/// Counts the components for which the membership test answers `true`.
pub fn count_matches<F: Fn(usize) -> bool>(components: &Vec<usize>, set_contains_id: &F) -> (count:
    usize)
    requires
        forall|i: int|
            0 <= i < components@.len() ==> call_requires(*set_contains_id, (#[trigger] components@[i],)),
    ensures
        exists|answers: Seq<bool>|
            answered(set_contains_id, components@, answers) && count == count_true(answers),
        forall|present: Set<usize>| #[trigger]
            decides(set_contains_id, components@, present) ==> count == match_count(
                components@,
                present,
            ),
{
    let mut count: usize = 0;
    let mut i: usize = 0;
    let ghost mut answers: Seq<bool> = Seq::empty();
    while i < components.len()
        invariant
            i <= components@.len(),
            forall|j: int|
                0 <= j < components@.len() ==> call_requires(
                    *set_contains_id,
                    (#[trigger] components@[j],),
                ),
            answered(set_contains_id, components@.take(i as int), answers),
            count == count_true(answers),
            count <= i,
        decreases components@.len() - i,
    {
        let hit = set_contains_id(components[i]);
        proof {
            let before = answers;
            answers = answers.push(hit);
            assert(answers.drop_last() =~= before);
            assert forall|j: int| 0 <= j < i + 1 implies call_ensures(
                *set_contains_id,
                (components@.take(i + 1)[j],),
                #[trigger] answers[j],
            ) by {
                if j < i {
                    assert(call_ensures(
                        *set_contains_id,
                        (components@.take(i as int)[j],),
                        before[j],
                    ));
                }
            }
        }
        if hit {
            count += 1;
        }
        i += 1;
    }
    proof {
        assert(components@.take(i as int) =~= components@);
        assert forall|present: Set<usize>| #[trigger]
            decides(set_contains_id, components@, present) implies count == match_count(
            components@,
            present,
        ) by {
            lemma_decided_count(set_contains_id, components@, answers, present);
        }
    }
    count
}

/// A count of zero means that none of the components is in the set.
pub proof fn lemma_match_count_zero(components: Seq<usize>, present: Set<usize>)
    ensures
        match_count(components, present) == 0 <==> forall|i: int|
            0 <= i < components.len() ==> !present.contains(#[trigger] components[i]),
    decreases components.len(),
{
    if components.len() > 0 {
        let rest = components.drop_last();
        lemma_match_count_zero(rest, present);
        if match_count(components, present) == 0 {
            assert forall|i: int| 0 <= i < components.len() implies !present.contains(
                #[trigger] components[i],
            ) by {
                if i < rest.len() {
                    assert(components[i] == rest[i]);
                }
            }
        } else if !present.contains(components.last()) {
            let i = choose|i: int| 0 <= i < rest.len() && present.contains(#[trigger] rest[i]);
            assert(present.contains(components[i]));
        }
    }
}

/// The membership test may answer `false` for every component before
/// position `i`, and `true` for the component at it.
pub open spec fn first_yes<F: Fn(usize) -> bool>(test: &F, components: Seq<usize>, i: int) -> bool {
    &&& 0 <= i < components.len()
    &&& call_ensures(*test, (components[i],), true)
    &&& forall|j: int| 0 <= j < i ==> call_ensures(*test, (#[trigger] components[j],), false)
}

/// Whether the membership test answers `true` for any of the components.
/// The test is not asked beyond the first such component.
pub fn any_match<F: Fn(usize) -> bool>(components: &Vec<usize>, set_contains_id: &F) -> (r: bool)
    requires
        forall|i: int|
            0 <= i < components@.len() ==> call_requires(
                *set_contains_id,
                (#[trigger] components@[i],),
            ),
    ensures
        r ==> exists|i: int| first_yes(set_contains_id, components@, i),
        !r ==> forall|i: int|
            0 <= i < components@.len() ==> call_ensures(
                *set_contains_id,
                (#[trigger] components@[i],),
                false,
            ),
        forall|present: Set<usize>| #[trigger]
            decides(set_contains_id, components@, present) ==> r == (match_count(
                components@,
                present,
            ) > 0),
{
    let mut i: usize = 0;
    while i < components.len()
        invariant
            i <= components@.len(),
            forall|j: int|
                0 <= j < components@.len() ==> call_requires(
                    *set_contains_id,
                    (#[trigger] components@[j],),
                ),
            forall|j: int|
                0 <= j < i ==> call_ensures(*set_contains_id, (#[trigger] components@[j],), false),
        decreases components@.len() - i,
    {
        if set_contains_id(components[i]) {
            proof {
                assert(first_yes(set_contains_id, components@, i as int));
                assert forall|present: Set<usize>| #[trigger]
                    decides(set_contains_id, components@, present) implies match_count(
                    components@,
                    present,
                ) > 0 by {
                    assert(call_ensures(*set_contains_id, (components@[i as int],), true));
                    assert(present.contains(components@[i as int]));
                    lemma_match_count_zero(components@, present);
                }
            }
            return true;
        }
        i += 1;
    }
    proof {
        assert forall|present: Set<usize>| #[trigger]
            decides(set_contains_id, components@, present) implies match_count(
            components@,
            present,
        ) == 0 by {
            assert forall|j: int| 0 <= j < components@.len() implies !present.contains(
                #[trigger] components@[j],
            ) by {
                assert(call_ensures(*set_contains_id, (components@[j],), false));
            }
            lemma_match_count_zero(components@, present);
        }
    }
    false
}

} // verus!
