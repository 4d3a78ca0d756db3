//! Footnote numbering: names are numbered from one, in the order in which
//! they are first seen.

use vstd::prelude::*;

verus! {

/// The index of the first occurrence of `name` in `names`, or the length
/// of `names` where it does not occur.
pub open spec fn first_index(names: Seq<Seq<char>>, name: Seq<char>) -> nat
    decreases names.len(),
{
    if names.len() == 0 {
        0
    } else if names[0] == name {
        0
    } else {
        1 + first_index(names.drop_first(), name)
    }
}

/// The number of the footnote `name`, given the names seen so far: its
/// place among them, or the next free number.
pub open spec fn footnote_number(names: Seq<Seq<char>>, name: Seq<char>) -> nat {
    first_index(names, name) + 1
}

/// The names seen once `name` has been seen too.
pub open spec fn register(names: Seq<Seq<char>>, name: Seq<char>) -> Seq<Seq<char>> {
    if names.contains(name) {
        names
    } else {
        names.push(name)
    }
}

/// `first_index` is the one position `i` before which `name` does not
/// occur and at which it occurs, or the length.
pub proof fn lemma_first_index(names: Seq<Seq<char>>, name: Seq<char>, i: nat)
    requires
        i <= names.len(),
        forall|j: int| 0 <= j < i ==> names[j] != name,
        i < names.len() ==> names[i as int] == name,
    ensures
        first_index(names, name) == i,
    decreases names.len(),
{
    if names.len() > 0 && i > 0 {
        let rest = names.drop_first();
        assert forall|j: int| 0 <= j < i - 1 implies rest[j] != name by {
            assert(rest[j] == names[j + 1]);
        }
        if i < names.len() {
            assert(rest[i - 1] == names[i as int]);
        }
        lemma_first_index(rest, name, (i - 1) as nat);
    }
}

/// What `first_index` returns: a position at which `name` occurs and before
/// which it does not, or the length where it occurs nowhere.
pub proof fn lemma_first_index_bounds(names: Seq<Seq<char>>, name: Seq<char>)
    ensures
        first_index(names, name) <= names.len(),
        first_index(names, name) < names.len() <==> names.contains(name),
        first_index(names, name) < names.len() ==> names[first_index(names, name) as int] == name,
        forall|j: int| 0 <= j < first_index(names, name) ==> names[j] != name,
    decreases names.len(),
{
    if names.len() == 0 {
    } else if names[0] == name {
    } else {
        let rest = names.drop_first();
        lemma_first_index_bounds(rest, name);
        let k = first_index(rest, name);
        assert forall|j: int| 0 <= j < k + 1 implies names[j] != name by {
            if j > 0 {
                assert(rest[j - 1] == names[j]);
            }
        }
        if k < rest.len() {
            assert(rest[k as int] == names[k as int + 1]);
        } else {
            assert forall|j: int| 0 <= j < names.len() implies names[j] != name by {}
        }
    }
}

/// Registering a name does not disturb the numbers already given, and the
/// name keeps the number it was given.
pub proof fn lemma_register_stable(names: Seq<Seq<char>>, name: Seq<char>, other: Seq<char>)
    ensures
        footnote_number(register(names, name), name) == footnote_number(names, name),
        names.contains(other) ==> footnote_number(register(names, name), other)
            == footnote_number(names, other),
{
    lemma_first_index_bounds(names, name);
    lemma_first_index_bounds(names, other);
    let after = register(names, name);
    if !names.contains(name) {
        let n = names.len();
        assert(after[n as int] == name);
        assert forall|j: int| 0 <= j < n implies after[j] != name by {
            assert(after[j] == names[j]);
        }
        lemma_first_index(after, name, n);
        if names.contains(other) {
            let k = first_index(names, other);
            assert(after[k as int] == names[k as int]);
            assert forall|j: int| 0 <= j < k implies after[j] != other by {
                assert(after[j] == names[j]);
            }
            lemma_first_index(after, other, k);
        }
    }
}

/// Looks `name` up among `names`, adds it at the end where it is new, and
/// returns its number.
pub fn number_for(names: &mut Vec<String>, name: &String) -> (number: usize)
    requires
        old(names).len() < usize::MAX,
    ensures
        number == footnote_number(old(names).deep_view(), name@),
        final(names).deep_view() == register(old(names).deep_view(), name@),
        final(names).len() <= old(names).len() + 1,
{
    let ghost before = names.deep_view();
    let mut i: usize = 0;
    while i < names.len()
        invariant
            i <= names.len(),
            names.deep_view() == before,
            *names == *old(names),
            forall|j: int| 0 <= j < i ==> before[j] != name@,
        decreases names.len() - i,
    {
        assert(before[i as int] == names[i as int]@);
        if names[i] == *name {
            proof {
                lemma_first_index(before, name@, i as nat);
                assert(before.contains(name@));
            }
            return i + 1;
        }
        i += 1;
    }
    proof {
        lemma_first_index(before, name@, i as nat);
        lemma_first_index_bounds(before, name@);
    }
    names.push(name.clone());
    assert(names.deep_view() =~= before.push(name@));
    i + 1
}

} // verus!
