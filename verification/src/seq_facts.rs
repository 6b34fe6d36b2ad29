//! Facts about sequences without repetition.

use vstd::prelude::*;

verus! {

/// What a sequence contains after an element was appended, and that
/// appending an element that was not there keeps the sequence free of
/// repetition.
pub proof fn lemma_push_contains<A>(s: Seq<A>, x: A)
    ensures
        forall|a: A| #[trigger] s.push(x).contains(a) <==> (s.contains(a) || a == x),
        s.no_duplicates() && !s.contains(x) ==> s.push(x).no_duplicates(),
{
    assert forall|a: A| #[trigger] s.push(x).contains(a) <==> (s.contains(a) || a == x) by {
        if s.contains(a) {
            let i = s.index_of(a);
            assert(s.push(x)[i] == a);
        }
        if a == x {
            assert(s.push(x)[s.len() as int] == a);
        }
    }
}

/// In a sequence without repetition an element stands at one place only.
pub proof fn lemma_index_of_unique<A>(s: Seq<A>, i: int)
    requires
        s.no_duplicates(),
        0 <= i < s.len(),
    ensures
        s.index_of(s[i]) == i,
{
    let j = s.index_of(s[i]);
    assert(s[j] == s[i]);
}

/// What a sequence without repetition contains after the element at one
/// place was taken out, and that it stays free of repetition.
pub proof fn lemma_remove_contains<A>(s: Seq<A>, i: int)
    requires
        s.no_duplicates(),
        0 <= i < s.len(),
    ensures
        s.remove(i).no_duplicates(),
        forall|a: A| #[trigger] s.remove(i).contains(a) <==> (s.contains(a) && a != s[i]),
{
    let after = s.remove(i);
    assert forall|a: A| #[trigger] after.contains(a) <==> (s.contains(a) && a != s[i]) by {
        if after.contains(a) {
            let j = after.index_of(a);
            let k = if j < i {
                j
            } else {
                j + 1
            };
            assert(s[k] == a);
        }
        if s.contains(a) && a != s[i] {
            let k = s.index_of(a);
            let j = if k < i {
                k
            } else {
                k - 1
            };
            assert(after[j] == a);
        }
    }
}

} // verus!
