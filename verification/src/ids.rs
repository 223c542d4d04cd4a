//! Sets of identifiers held in a `Vec<String>` without duplicates: finding
//! one, and how adding and removing one changes the set.
use vstd::prelude::*;

verus! {

/// The position of `id` in `v`, if it is there.
pub fn position_of(v: &Vec<String>, id: &String) -> (res: Option<usize>)
    ensures
        match res {
            Some(i) => i < v@.len() && v.deep_view()[i as int] == id@,
            None => !v.deep_view().contains(id@),
        },
{
    let mut i: usize = 0;
    while i < v.len()
        invariant
            i <= v@.len(),
            forall|j: int| 0 <= j < i ==> v@[j]@ != id@,
        decreases v.len() - i,
    {
        if v[i] == *id {
            return Some(i);
        }
        i = i + 1;
    }
    proof {
        if v.deep_view().contains(id@) {
            let k = choose|k: int| 0 <= k < v.deep_view().len() && v.deep_view()[k] == id@;
            assert(v@[k]@ == id@);
        }
    }
    None
}

/// Adding an identifier that is not there adds it to the set and keeps the
/// sequence free of duplicates.
pub proof fn lemma_push_id(s: Seq<Seq<char>>, x: Seq<char>)
    requires
        s.no_duplicates(),
        !s.contains(x),
    ensures
        s.push(x).to_set() == s.to_set().insert(x),
        s.push(x).no_duplicates(),
{
    let after = s.push(x);
    assert forall|y: Seq<char>| after.contains(y) <==> s.contains(y) || y == x by {
        if after.contains(y) {
            let k = choose|k: int| 0 <= k < after.len() && after[k] == y;
            if k < s.len() {
                assert(s[k] == y);
            }
        }
        if s.contains(y) {
            let k = choose|k: int| 0 <= k < s.len() && s[k] == y;
            assert(after[k] == y);
        }
        if y == x {
            assert(after[s.len() as int] == y);
        }
    }
    assert(after.to_set() =~= s.to_set().insert(x));
}

/// Removing the identifier at position `i` removes it from the set and keeps
/// the sequence free of duplicates.
pub proof fn lemma_remove_id(s: Seq<Seq<char>>, i: int)
    requires
        s.no_duplicates(),
        0 <= i < s.len(),
    ensures
        s.remove(i).to_set() == s.to_set().remove(s[i]),
        s.remove(i).no_duplicates(),
{
    let after = s.remove(i);
    let x = s[i];
    assert forall|y: Seq<char>| after.contains(y) <==> s.contains(y) && y != x by {
        if after.contains(y) {
            let k = choose|k: int| 0 <= k < after.len() && after[k] == y;
            if k < i {
                assert(s[k] == y);
            } else {
                assert(s[k + 1] == y);
            }
        }
        if s.contains(y) && y != x {
            let k = choose|k: int| 0 <= k < s.len() && s[k] == y;
            if k < i {
                assert(after[k] == y);
            } else {
                assert(k != i);
                assert(after[k - 1] == y);
            }
        }
    }
    assert(after.to_set() =~= s.to_set().remove(x));
}

} // verus!
