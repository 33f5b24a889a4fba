//! Lists of names: looking a name up, and taking names out.

use vstd::prelude::*;

verus! {

/// Whether one of the first `k` names reads `name`.
pub open spec fn contains_name_upto(names: Seq<String>, name: Seq<char>, k: int) -> bool {
    exists|i: int| 0 <= i < k && i < names.len() && (#[trigger] names[i])@ == name
}

/// Whether one of the names reads `name`.
pub open spec fn contains_name(names: Seq<String>, name: Seq<char>) -> bool {
    contains_name_upto(names, name, names.len() as int)
}

/// Whether no name occurs twice.
pub open spec fn distinct_names(names: Seq<String>) -> bool {
    forall|i: int, j: int|
        0 <= i < j < names.len() ==> (#[trigger] names[i])@ != (#[trigger] names[j])@
}

/// Whether `names` holds `name`.
pub fn contains(names: &Vec<String>, name: &String) -> (r: bool)
    ensures
        r == contains_name(names@, name@),
{
    let mut i: usize = 0;
    while i < names.len()
        invariant
            0 <= i <= names.len(),
            !contains_name_upto(names@, name@, i as int),
        decreases names.len() - i,
    {
        if names[i] == *name {
            return true;
        }
        i = i + 1;
    }
    false
}

/// The first `k` names without those that have occurred before.
pub open spec fn deduped_upto(names: Seq<String>, k: int) -> Seq<String>
    decreases k,
{
    if k <= 0 {
        Seq::empty()
    } else if contains_name(deduped_upto(names, k - 1), names[k - 1]@) {
        deduped_upto(names, k - 1)
    } else {
        deduped_upto(names, k - 1).push(names[k - 1])
    }
}

/// The names without those that have occurred before.
pub open spec fn deduped(names: Seq<String>) -> Seq<String> {
    deduped_upto(names, names.len() as int)
}

/// What is left after removing repetitions holds no name twice, and holds
/// exactly the names that were there.
pub proof fn lemma_deduped(names: Seq<String>, k: int)
    requires
        0 <= k <= names.len(),
    ensures
        distinct_names(deduped_upto(names, k)),
        forall|name: Seq<char>| #[trigger]
            contains_name(deduped_upto(names, k), name) <==> contains_name_upto(names, name, k),
    decreases k,
{
    if k > 0 {
        lemma_deduped(names, k - 1);
        let prev = deduped_upto(names, k - 1);
        let next = deduped_upto(names, k);
        let last = names[k - 1];
        assert forall|name: Seq<char>| #[trigger]
            contains_name(next, name) <==> contains_name_upto(names, name, k) by {
            if contains_name(next, name) {
                let i = choose|i: int| 0 <= i < next.len() && (#[trigger] next[i])@ == name;
                if i < prev.len() {
                    assert(prev[i]@ == name);
                    assert(contains_name(prev, name));
                    let j = choose|j: int|
                        0 <= j < k - 1 && j < names.len() && (#[trigger] names[j])@ == name;
                    assert(names[j]@ == name);
                } else {
                    assert(names[k - 1]@ == name);
                }
            }
            if contains_name_upto(names, name, k) {
                let j = choose|j: int|
                    0 <= j < k && j < names.len() && (#[trigger] names[j])@ == name;
                if j < k - 1 {
                    assert(contains_name_upto(names, name, k - 1));
                    assert(contains_name(prev, name));
                    let i = choose|i: int| 0 <= i < prev.len() && (#[trigger] prev[i])@ == name;
                    assert(next[i]@ == name);
                } else if contains_name(prev, last@) {
                } else {
                    assert(next[prev.len() as int]@ == name);
                }
            }
        }
        if !contains_name(prev, last@) {
            assert forall|i: int, j: int| 0 <= i < j < next.len() implies (#[trigger] next[i])@ != (
            #[trigger] next[j])@ by {
                if j == prev.len() {
                    assert(prev[i]@ != last@);
                } else {
                    assert(prev[i]@ != prev[j]@);
                }
            }
        }
    }
}

/// Removes every name that has occurred before; what stays keeps its order.
pub fn dedupe(names: &mut Vec<String>)
    ensures
        final(names)@ == deduped(old(names)@),
        distinct_names(final(names)@),
        forall|name: Seq<char>| #[trigger]
            contains_name(final(names)@, name) <==> contains_name(old(names)@, name),
{
    let ghost before = names@;
    let mut out: Vec<String> = Vec::new();
    let mut i: usize = 0;
    while i < names.len()
        invariant
            0 <= i <= names.len(),
            names@ == before,
            out@ == deduped_upto(before, i as int),
        decreases names.len() - i,
    {
        if !contains(&out, &names[i]) {
            out.push(names[i].clone());
        }
        i = i + 1;
    }
    proof {
        lemma_deduped(before, before.len() as int);
    }
    *names = out;
}

/// The first `k` names without those that read `name`.
pub open spec fn names_without_upto(names: Seq<String>, name: Seq<char>, k: int) -> Seq<String>
    decreases k,
{
    if k <= 0 {
        Seq::empty()
    } else if names[k - 1]@ == name {
        names_without_upto(names, name, k - 1)
    } else {
        names_without_upto(names, name, k - 1).push(names[k - 1])
    }
}

/// The names without those that read `name`.
pub open spec fn names_without(names: Seq<String>, name: Seq<char>) -> Seq<String> {
    names_without_upto(names, name, names.len() as int)
}

/// The names without those that read `name`; what stays keeps its order.
pub fn without_name(names: &Vec<String>, name: &String) -> (r: Vec<String>)
    ensures
        r@ == names_without(names@, name@),
{
    let mut out: Vec<String> = Vec::new();
    let mut i: usize = 0;
    while i < names.len()
        invariant
            0 <= i <= names.len(),
            out@ == names_without_upto(names@, name@, i as int),
        decreases names.len() - i,
    {
        if names[i] != *name {
            out.push(names[i].clone());
        }
        i = i + 1;
    }
    out
}

/// A copy of the names.
pub fn clone_names(names: &Vec<String>) -> (r: Vec<String>)
    ensures
        r@ == names@,
{
    let mut out: Vec<String> = Vec::new();
    let mut i: usize = 0;
    while i < names.len()
        invariant
            0 <= i <= names.len(),
            out@ == names@.subrange(0, i as int),
        decreases names.len() - i,
    {
        out.push(names[i].clone());
        i = i + 1;
    }
    out
}

} // verus!
