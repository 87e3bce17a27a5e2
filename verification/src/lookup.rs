//! Finding a name in a table of names.
//!
//! Kind tables and the tables of the registry are lists of names that are
//! searched from the front: a name is found at the least index at which it
//! stands.

use vstd::prelude::*;

verus! {

/// What a table of names is, as values.
pub open spec fn names_view(names: Seq<String>) -> Seq<Seq<char>> {
    Seq::new(names.len(), |i: int| names[i]@)
}

/// `p` is the least index at which `name` stands in `names`, or the length
/// of `names` where it stands nowhere.
pub open spec fn is_slot(names: Seq<Seq<char>>, name: Seq<char>, p: int) -> bool {
    &&& 0 <= p <= names.len()
    &&& p < names.len() ==> names[p] == name
    &&& forall|j: int| 0 <= j < p ==> names[j] != name
}

/// The index that `name` has in `names`, or would get if it were added.
pub open spec fn slot(names: Seq<Seq<char>>, name: Seq<char>) -> int {
    choose|p: int| is_slot(names, name, p)
}

/// A slot exists for every name.
pub proof fn lemma_slot_exists(names: Seq<Seq<char>>, name: Seq<char>)
    ensures
        is_slot(names, name, slot(names, name)),
    decreases names.len(),
{
    if names.len() == 0 {
        assert(is_slot(names, name, 0));
    } else {
        let front = names.drop_last();
        lemma_slot_exists(front, name);
        let p = slot(front, name);
        assert forall|j: int| 0 <= j < front.len() implies front[j] == names[j] by {}
        if p < front.len() {
            assert(is_slot(names, name, p));
        } else if names.last() == name {
            assert(is_slot(names, name, names.len() - 1));
        } else {
            assert(is_slot(names, name, names.len() as int));
        }
    }
}

/// There is one slot only.
pub proof fn lemma_slot_unique(names: Seq<Seq<char>>, name: Seq<char>, p: int)
    requires
        is_slot(names, name, p),
    ensures
        slot(names, name) == p,
{
    lemma_slot_exists(names, name);
}

/// Finds the least index at which `name` stands in `names`, or their number
/// where it stands nowhere.
pub fn slot_of(names: &Vec<String>, name: &String) -> (p: usize)
    ensures
        p == slot(names_view(names@), name@),
        p <= names@.len(),
{
    let ghost table = names_view(names@);
    let mut p: usize = 0;
    while p < names.len() && !(names[p] == *name)
        invariant
            p <= names.len(),
            forall|j: int| 0 <= j < p ==> table[j] != name@,
            table == names_view(names@),
        decreases names.len() - p,
    {
        p = p + 1;
    }
    proof {
        assert(is_slot(table, name@, p as int));
        lemma_slot_unique(table, name@, p as int);
    }
    p
}

} // verus!
