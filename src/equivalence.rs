use vstd::prelude::*;

verus! {

/// A set of type names that one SQL dialect treats as interchangeable.
#[derive(Clone, Debug, PartialEq, Eq)]
pub struct EquivalenceGroup {
    pub types: Vec<String>,
}

/// `group` lists the type name `t`.
pub open spec fn group_has(group: EquivalenceGroup, t: Seq<char>) -> bool {
    exists|j: int| 0 <= j < group.types@.len() && (#[trigger] group.types@[j])@ == t
}

/// Two type names are equivalent when they are the same text, or when some
/// group lists both of them.
pub open spec fn equivalent(groups: Seq<EquivalenceGroup>, a: Seq<char>, b: Seq<char>) -> bool {
    a == b || exists|i: int|
        0 <= i < groups.len() && group_has(#[trigger] groups[i], a) && group_has(groups[i], b)
}

fn group_contains(group: &EquivalenceGroup, t: &String) -> (r: bool)
    ensures
        r == group_has(*group, t@),
{
    let mut j: usize = 0;
    while j < group.types.len()
        invariant
            j <= group.types@.len(),
            forall|k: int| 0 <= k < j ==> (#[trigger] group.types@[k])@ != t@,
        decreases group.types@.len() - j,
    {
        if group.types[j] == *t {
            return true;
        }
        j = j + 1;
    }
    false
}

/// Whether the database type `a` and the model type `b` are interchangeable
/// under `groups`.
pub fn are_equivalent_types(groups: &[EquivalenceGroup], a: &String, b: &String) -> (r: bool)
    ensures
        r == equivalent(groups@, a@, b@),
{
    if *a == *b {
        return true;
    }
    let mut i: usize = 0;
    while i < groups.len()
        invariant
            i <= groups@.len(),
            a@ != b@,
            forall|k: int|
                0 <= k < i ==> !(group_has(#[trigger] groups@[k], a@) && group_has(groups@[k], b@)),
        decreases groups@.len() - i,
    {
        if group_contains(&groups[i], a) && group_contains(&groups[i], b) {
            return true;
        }
        i = i + 1;
    }
    false
}

/// Every type name is equivalent to itself, whatever the groups.
pub proof fn lemma_equivalent_reflexive(groups: Seq<EquivalenceGroup>, t: Seq<char>)
    ensures
        equivalent(groups, t, t),
{
}

/// Equivalence does not depend on the order of the two type names.
pub proof fn lemma_equivalent_symmetric(groups: Seq<EquivalenceGroup>, a: Seq<char>, b: Seq<char>)
    ensures
        equivalent(groups, a, b) == equivalent(groups, b, a),
{
}

} // verus!
